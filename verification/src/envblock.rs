//! The GRUB environment block: a file of exactly 1024 bytes that holds a
//! header, `KEY=VALUE` lines and a padding of `#`.

use crate::text::{
    chars_of, find, find_char, lemma_find_from_is, lines, next_line, push_char, string_of,
    without_cr,
};
use vstd::prelude::*;
use vstd::string::*;
use vstd::utf8::encode_utf8;

verus! {

/// The size of an environment block, in bytes.
pub const GRUB_ENVIRONMENT_BLOCK_LENGTH: usize = 1024;

/// The number of bytes that a text takes in UTF-8.
pub open spec fn byte_len(s: Seq<char>) -> nat {
    encode_utf8(s).len()
}

/// The two comment lines that open every environment block.
pub open spec fn block_header() -> Seq<char> {
    "# GRUB Environment Block"@ + seq!['\n']
        + "# WARNING: Do not edit this file by tools other than grub-editenv!!!"@ + seq!['\n']
}

/// The line that stores one variable.
pub open spec fn entry_line(entry: (Seq<char>, Seq<char>)) -> Seq<char> {
    entry.0 + seq!['='] + entry.1 + seq!['\n']
}

/// The lines that store the given variables, in order.
pub open spec fn entries_text(env: Seq<(Seq<char>, Seq<char>)>) -> Seq<char>
    decreases env.len(),
{
    if env.len() == 0 {
        Seq::empty()
    } else {
        entry_line(env[0]) + entries_text(env.drop_first())
    }
}

/// `n` times the padding character.
pub open spec fn padding(n: nat) -> Seq<char> {
    Seq::new(n, |i: int| '#')
}

/// Header and variables, before padding.
pub open spec fn block_content(env: Seq<(Seq<char>, Seq<char>)>) -> Seq<char> {
    block_header() + entries_text(env)
}

/// The environment block that stores the given variables: header and
/// variables, padded to 1024 bytes. There is none when header and variables
/// alone take more than that.
pub open spec fn environment_block(env: Seq<(Seq<char>, Seq<char>)>) -> Option<Seq<char>> {
    let content = block_content(env);
    if byte_len(content) <= GRUB_ENVIRONMENT_BLOCK_LENGTH {
        Some(content + padding((GRUB_ENVIRONMENT_BLOCK_LENGTH - byte_len(content)) as nat))
    } else {
        None
    }
}

/// Whether a variable passes the whitelist. An empty whitelist lets every
/// variable pass.
pub open spec fn whitelisted(whitelist: Seq<Seq<char>>, name: Seq<char>) -> bool {
    whitelist.len() == 0 || whitelist.contains(name)
}

/// What one line of an environment block contributes: nothing if it is a
/// comment, has no `=` or names a variable that the whitelist holds back;
/// else the variable, split at the first `=`.
pub open spec fn line_entries(line: Seq<char>, whitelist: Seq<Seq<char>>) -> Seq<
    (Seq<char>, Seq<char>),
> {
    let k = find(line, '=');
    if line.len() > 0 && line[0] == '#' {
        Seq::empty()
    } else if k < 0 || k >= line.len() {
        Seq::empty()
    } else if !whitelisted(whitelist, line.take(k)) {
        Seq::empty()
    } else {
        seq![(line.take(k), line.skip(k + 1))]
    }
}

/// The variables that the given lines hold, in order.
pub open spec fn lines_entries(ls: Seq<Seq<char>>, whitelist: Seq<Seq<char>>) -> Seq<
    (Seq<char>, Seq<char>),
>
    decreases ls.len(),
{
    if ls.len() == 0 {
        Seq::empty()
    } else {
        line_entries(ls[0], whitelist) + lines_entries(ls.drop_first(), whitelist)
    }
}

/// The variables that the text of an environment block holds, in the order
/// of their lines.
pub open spec fn loaded_env(contents: Seq<char>, whitelist: Seq<Seq<char>>) -> Seq<
    (Seq<char>, Seq<char>),
> {
    lines_entries(lines(contents), whitelist)
}

/// The UTF-8 encoding of a concatenation is the concatenation of the
/// encodings.
pub proof fn lemma_encode_concat(a: Seq<char>, b: Seq<char>)
    ensures
        encode_utf8(a + b) == encode_utf8(a) + encode_utf8(b),
    decreases a.len(),
{
    if a.len() == 0 {
        assert(a + b =~= b);
        assert(encode_utf8(a) + encode_utf8(b) =~= encode_utf8(b));
    } else {
        lemma_encode_concat(a.drop_first(), b);
        assert((a + b).drop_first() =~= a.drop_first() + b);
        assert((a + b)[0] == a[0]);
        assert(encode_utf8(a + b) =~= encode_utf8(a) + encode_utf8(b));
    }
}

/// Padding takes one byte for each character.
pub proof fn lemma_padding_bytes(n: nat)
    ensures
        byte_len(padding(n)) == n,
{
    vstd::utf8::is_ascii_chars_encode_utf8(padding(n));
}

/// Adding a variable at the end adds its line at the end.
pub proof fn lemma_entries_text_push(env: Seq<(Seq<char>, Seq<char>)>, e: (Seq<char>, Seq<char>))
    ensures
        entries_text(env.push(e)) == entries_text(env) + entry_line(e),
    decreases env.len(),
{
    if env.len() == 0 {
        assert(env.push(e).drop_first() =~= Seq::<(Seq<char>, Seq<char>)>::empty());
        assert(env.push(e)[0] == e);
        assert(entries_text(env.push(e).drop_first()) =~= Seq::<char>::empty());
        assert(entries_text(env.push(e)) =~= entry_line(e));
        assert(entries_text(env) + entry_line(e) =~= entry_line(e));
    } else {
        lemma_entries_text_push(env.drop_first(), e);
        assert(env.push(e).drop_first() =~= env.drop_first().push(e));
        assert(env.push(e)[0] == env[0]);
        assert(entries_text(env.push(e)) =~= entries_text(env) + entry_line(e));
    }
}

/// Whether a variable comes back unchanged when it is written to an
/// environment block and read again: its name holds no `=` and no line feed
/// and does not start like a comment, and its value holds no line feed and
/// does not end with a carriage return.
pub open spec fn storable(entry: (Seq<char>, Seq<char>)) -> bool {
    &&& !entry.0.contains('=')
    &&& !entry.0.contains('\n')
    &&& (entry.0.len() > 0 ==> entry.0[0] != '#')
    &&& !entry.1.contains('\n')
    &&& (entry.1.len() > 0 ==> entry.1.last() != '\r')
}

/// A text that starts with a terminated line has that line as its first
/// line, followed by the lines of the rest.
pub proof fn lemma_lines_first(line: Seq<char>, rest: Seq<char>)
    requires
        !line.contains('\n'),
    ensures
        lines(line + seq!['\n'] + rest) == seq![without_cr(line)] + lines(rest),
{
    let s = line + seq!['\n'] + rest;
    let k = line.len() as int;
    assert forall|j: int| 0 <= j < k implies s[j] != '\n' by {
        assert(s[j] == line[j]);
    }
    assert(s[k] == '\n');
    lemma_find_from_is(s, '\n', 0, k);
    assert(s.take(k) =~= line);
    assert(s.skip(k + 1) =~= rest);
}

/// The lines of a text are read one after the other: the first line
/// contributes first.
pub proof fn lemma_loaded_first(line: Seq<char>, rest: Seq<char>, whitelist: Seq<Seq<char>>)
    requires
        !line.contains('\n'),
    ensures
        loaded_env(line + seq!['\n'] + rest, whitelist) == line_entries(
            without_cr(line),
            whitelist,
        ) + loaded_env(rest, whitelist),
{
    lemma_lines_first(line, rest);
    let ls = seq![without_cr(line)] + lines(rest);
    assert(ls[0] == without_cr(line));
    assert(ls.drop_first() =~= lines(rest));
}

/// Padding holds no variable.
pub proof fn lemma_loaded_padding(n: nat, whitelist: Seq<Seq<char>>)
    ensures
        loaded_env(padding(n), whitelist) == Seq::<(Seq<char>, Seq<char>)>::empty(),
{
    let p = padding(n);
    if n > 0 {
        lemma_find_from_is(p, '\n', 0, n as int);
        let ls = seq![p];
        assert(lines(p) == ls);
        assert(ls.drop_first() =~= Seq::<Seq<char>>::empty());
        assert(lines_entries(ls.drop_first(), whitelist) =~= Seq::<
            (Seq<char>, Seq<char>),
        >::empty());
        assert(line_entries(p, whitelist) =~= Seq::<(Seq<char>, Seq<char>)>::empty());
        assert(lines_entries(ls, whitelist) =~= Seq::<(Seq<char>, Seq<char>)>::empty());
    }
}

/// The line of a storable variable is read back as that variable.
pub proof fn lemma_entry_line_read(entry: (Seq<char>, Seq<char>))
    requires
        storable(entry),
    ensures
        !(entry.0 + seq!['='] + entry.1).contains('\n'),
        line_entries(without_cr(entry.0 + seq!['='] + entry.1), Seq::empty()) == seq![entry],
{
    let line = entry.0 + seq!['='] + entry.1;
    let k = entry.0.len() as int;
    assert forall|j: int| 0 <= j < line.len() implies line[j] != '\n' by {
        if j < k {
            assert(line[j] == entry.0[j]);
        } else if j > k {
            assert(line[j] == entry.1[j - k - 1]);
        }
    }
    assert(line.last() != '\r') by {
        if entry.1.len() > 0 {
            assert(line.last() == entry.1.last());
        } else {
            assert(line.last() == '=');
        }
    }
    assert(without_cr(line) == line);
    assert forall|j: int| 0 <= j < k implies line[j] != '=' by {
        assert(line[j] == entry.0[j]);
    }
    assert(line[k] == '=');
    lemma_find_from_is(line, '=', 0, k);
    assert(line[0] != '#') by {
        if k > 0 {
            assert(line[0] == entry.0[0]);
        }
    }
    assert(line.take(k) =~= entry.0);
    assert(line.skip(k + 1) =~= entry.1);
}

/// Storable variables followed by a text that holds none are read back as
/// they were written.
pub proof fn lemma_entries_round_trip(env: Seq<(Seq<char>, Seq<char>)>, tail: Seq<char>)
    requires
        forall|i: int| 0 <= i < env.len() ==> storable(#[trigger] env[i]),
        loaded_env(tail, Seq::empty()) == Seq::<(Seq<char>, Seq<char>)>::empty(),
    ensures
        loaded_env(entries_text(env) + tail, Seq::empty()) == env,
    decreases env.len(),
{
    if env.len() == 0 {
        assert(entries_text(env) + tail =~= tail);
        assert(env =~= Seq::<(Seq<char>, Seq<char>)>::empty());
    } else {
        let e = env[0];
        let rest = env.drop_first();
        let line = e.0 + seq!['='] + e.1;
        assert(storable(e));
        assert forall|i: int| 0 <= i < rest.len() implies storable(#[trigger] rest[i]) by {
            assert(rest[i] == env[i + 1]);
        }
        lemma_entries_round_trip(rest, tail);
        lemma_entry_line_read(e);
        lemma_loaded_first(line, entries_text(rest) + tail, Seq::empty());
        assert(entries_text(env) + tail =~= line + seq!['\n'] + (entries_text(rest) + tail));
        assert(seq![e] + rest =~= env);
    }
}

/// The header of an environment block holds no variable: a text behind it
/// is read as if the header were not there.
pub proof fn lemma_header_skipped(rest: Seq<char>, whitelist: Seq<Seq<char>>)
    ensures
        loaded_env(block_header() + rest, whitelist) == loaded_env(rest, whitelist),
{
    let title = "# GRUB Environment Block"@;
    let warning = "# WARNING: Do not edit this file by tools other than grub-editenv!!!"@;
    reveal_strlit("# GRUB Environment Block");
    reveal_strlit("# WARNING: Do not edit this file by tools other than grub-editenv!!!");
    assert(!title.contains('\n'));
    assert(!warning.contains('\n'));
    assert(title[0] == '#' && title.last() == 'k');
    assert(warning[0] == '#' && warning.last() == '!');
    let after = warning + seq!['\n'] + rest;
    lemma_loaded_first(title, after, whitelist);
    lemma_loaded_first(warning, rest, whitelist);
    assert(block_header() + rest =~= title + seq!['\n'] + after);
    let none = Seq::<(Seq<char>, Seq<char>)>::empty();
    assert(line_entries(without_cr(title), whitelist) =~= none);
    assert(line_entries(without_cr(warning), whitelist) =~= none);
    assert(none + loaded_env(rest, whitelist) =~= loaded_env(rest, whitelist));
}

/// Round trip: an environment block built from storable variables that fit
/// into it is read back, without a whitelist, as exactly those variables in
/// their order.
pub proof fn lemma_block_round_trip(env: Seq<(Seq<char>, Seq<char>)>)
    requires
        forall|i: int| 0 <= i < env.len() ==> storable(#[trigger] env[i]),
        byte_len(block_content(env)) <= GRUB_ENVIRONMENT_BLOCK_LENGTH,
    ensures
        environment_block(env) is Some,
        loaded_env(environment_block(env)->Some_0, Seq::empty()) == env,
{
    let fill = (GRUB_ENVIRONMENT_BLOCK_LENGTH - byte_len(block_content(env))) as nat;
    let tail = padding(fill);
    lemma_loaded_padding(fill, Seq::empty());
    lemma_entries_round_trip(env, tail);
    lemma_header_skipped(entries_text(env) + tail, Seq::empty());
    assert(block_content(env) + tail =~= block_header() + (entries_text(env) + tail));
}

/// Builds the environment block that stores the given variables.
///
/// Fails when header and variables take more than 1024 bytes; a block that
/// is returned is exactly 1024 bytes long.
pub fn grub_environment_block(env: Vec<(String, String)>) -> (r: Result<String, String>)
    ensures
        match r {
            Ok(block) => environment_block(env.deep_view()) == Some(block@) && byte_len(block@)
                == GRUB_ENVIRONMENT_BLOCK_LENGTH,
            Err(msg) => environment_block(env.deep_view()) is None && msg@
                == "environment block too large"@,
        },
{
    let mut block = String::new();
    block.append("# GRUB Environment Block");
    block.append("\n");
    block.append("# WARNING: Do not edit this file by tools other than grub-editenv!!!");
    block.append("\n");
    proof {
        reveal_strlit("\n");
        assert("\n"@ =~= seq!['\n']);
        assert(block@ =~= block_header() + entries_text(env.deep_view().take(0)));
    }
    let mut i: usize = 0;
    while i < env.len()
        invariant
            i <= env.len(),
            block@ == block_header() + entries_text(env.deep_view().take(i as int)),
        decreases env.len() - i,
    {
        let ghost before = block@;
        block.append(env[i].0.as_str());
        block.append("=");
        block.append(env[i].1.as_str());
        block.append("\n");
        proof {
            reveal_strlit("\n");
            reveal_strlit("=");
            assert("\n"@ =~= seq!['\n']);
            assert("="@ =~= seq!['=']);
            let done = env.deep_view().take(i as int);
            let e = env.deep_view()[i as int];
            assert(e == (env@[i as int].0@, env@[i as int].1@));
            lemma_entries_text_push(done, e);
            assert(env.deep_view().take(i + 1) =~= done.push(e));
            assert(block@ =~= before + entry_line(e));
            assert(block@ =~= block_header() + entries_text(env.deep_view().take(i + 1)));
        }
        i += 1;
    }
    assert(env.deep_view().take(env.len() as int) =~= env.deep_view());
    let ghost content = block@;
    let used = block.as_str().as_bytes().len();
    if used > GRUB_ENVIRONMENT_BLOCK_LENGTH {
        Err("environment block too large".to_string())
    } else {
        let fill = GRUB_ENVIRONMENT_BLOCK_LENGTH - used;
        let mut j: usize = 0;
        while j < fill
            invariant
                j <= fill,
                block@ == content + padding(j as nat),
            decreases fill - j,
        {
            push_char(&mut block, '#');
            assert(block@ =~= content + padding((j + 1) as nat));
            j += 1;
        }
        proof {
            lemma_encode_concat(content, padding(fill as nat));
            lemma_padding_bytes(fill as nat);
        }
        Ok(block)
    }
}

/// Whether `name` is one of `names`.
fn is_listed(names: &Vec<String>, name: &String) -> (r: bool)
    ensures
        r == names.deep_view().contains(name@),
{
    let mut i: usize = 0;
    while i < names.len()
        invariant
            i <= names.len(),
            forall|j: int| 0 <= j < i ==> names.deep_view()[j] != name@,
        decreases names.len() - i,
    {
        if names[i] == *name {
            assert(names.deep_view()[i as int] == name@);
            return true;
        }
        i += 1;
    }
    false
}

/// Reads the variables out of the text of an environment block.
///
/// Comment lines and lines without `=` are passed over. With a whitelist
/// that is not empty, only the variables that it names are returned.
pub fn load_env(contents: &str, whitelisted_vars: Vec<String>) -> (env: Vec<(String, String)>)
    ensures
        env.deep_view() == loaded_env(contents@, whitelisted_vars.deep_view()),
{
    let text = chars_of(contents);
    let ghost whitelist = whitelisted_vars.deep_view();
    let mut env: Vec<(String, String)> = Vec::new();
    let mut pos: usize = 0;
    proof {
        assert(text@.skip(0) =~= text@);
        assert(env.deep_view() =~= Seq::<(Seq<char>, Seq<char>)>::empty());
        assert(env.deep_view() + lines_entries(lines(text@), whitelist) =~= lines_entries(
            lines(text@),
            whitelist,
        ));
    }
    while pos < text.len()
        invariant
            pos <= text.len(),
            text@ == contents@,
            whitelist == whitelisted_vars.deep_view(),
            loaded_env(contents@, whitelist) == env.deep_view() + lines_entries(
                lines(text@.skip(pos as int)),
                whitelist,
            ),
        decreases text.len() - pos,
    {
        let (end, next) = next_line(&text, pos);
        let ghost line = text@.subrange(pos as int, end as int);
        let ghost rest = lines(text@.skip(next as int));
        let ghost before = env.deep_view();
        proof {
            let ls = seq![line] + rest;
            assert(ls[0] == line);
            assert(ls.drop_first() =~= rest);
        }
        if !(end > pos && text[pos] == '#') {
            let eq = find_char(&text, pos, end, '=');
            if eq < end {
                let name = string_of(&text, pos, eq);
                let value = string_of(&text, eq + 1, end);
                proof {
                    assert(line.take(eq - pos) =~= name@);
                    assert(line.skip(eq - pos + 1) =~= value@);
                }
                if whitelisted_vars.len() == 0 || is_listed(&whitelisted_vars, &name) {
                    env.push((name, value));
                    proof {
                        assert(env.deep_view() =~= before.push((name@, value@)));
                        assert(before.push((name@, value@)) =~= before + line_entries(
                            line,
                            whitelist,
                        ));
                    }
                }
            }
        }
        proof {
            assert(env.deep_view() =~= before + line_entries(line, whitelist));
            assert(before + (line_entries(line, whitelist) + lines_entries(rest, whitelist))
                =~= (before + line_entries(line, whitelist)) + lines_entries(rest, whitelist));
        }
        pos = next;
    }
    proof {
        assert(text@.skip(pos as int).len() == 0);
        assert(env.deep_view() + Seq::<(Seq<char>, Seq<char>)>::empty() =~= env.deep_view());
    }
    env
}

} // verus!
