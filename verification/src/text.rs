//! Character-level helpers shared by the parsers of this crate.
//!
//! Every string is modelled by its view, a `Seq<char>`. The executable
//! helpers work on a `Vec<char>` buffer and on index ranges into it, so that
//! no intermediate strings are allocated while scanning.

use vstd::prelude::*;

verus! {

/// Appends one character to a string.
///
/// Trusted: `String::push` of the standard library adds exactly the given
/// character at the end and leaves the rest as it was.
#[verifier::external_body]
pub(crate) fn push_char(s: &mut String, c: char)
    ensures
        final(s)@ == old(s)@.push(c),
{
    s.push(c)
}

/// The characters of a string, in order.
pub fn chars_of(s: &str) -> (v: Vec<char>)
    ensures
        v@ == s@,
{
    let mut v: Vec<char> = Vec::new();
    for c in it: s.chars()
        invariant
            v@ == s@.take(it.index() as int),
            it.seq() == s@,
    {
        v.push(c);
    }
    v
}

/// The string made of the characters `v[from..to]`.
pub(crate) fn string_of(v: &Vec<char>, from: usize, to: usize) -> (s: String)
    requires
        from <= to <= v.len(),
    ensures
        s@ == v@.subrange(from as int, to as int),
{
    let mut s = String::new();
    let mut i: usize = from;
    while i < to
        invariant
            from <= i <= to <= v.len(),
            s@ == v@.subrange(from as int, i as int),
        decreases to - i,
    {
        push_char(&mut s, v[i]);
        i += 1;
    }
    s
}

/// Whether two strings hold the same characters.
pub fn same_text(a: &str, b: &str) -> (r: bool)
    ensures
        r == (a@ == b@),
{
    let x = chars_of(a);
    let y = chars_of(b);
    if x.len() != y.len() {
        return false;
    }
    let mut i: usize = 0;
    while i < x.len()
        invariant
            i <= x.len(),
            x.len() == y.len(),
            x@ == a@,
            y@ == b@,
            x@.take(i as int) == y@.take(i as int),
        decreases x.len() - i,
    {
        if x[i] != y[i] {
            assert(a@[i as int] != b@[i as int]);
            return false;
        }
        assert(x@.take(i + 1) =~= x@.take(i as int).push(x@[i as int]));
        assert(y@.take(i + 1) =~= y@.take(i as int).push(y@[i as int]));
        i += 1;
    }
    assert(x@ =~= x@.take(x.len() as int));
    assert(y@ =~= y@.take(y.len() as int));
    true
}

/// The first index at or after `i` at which `c` occurs in `s`, or the length
/// of `s` when it does not occur there.
pub open spec fn find_from(s: Seq<char>, c: char, i: int) -> int
    decreases s.len() - i,
{
    if i < 0 || i >= s.len() {
        s.len() as int
    } else if s[i] == c {
        i
    } else {
        find_from(s, c, i + 1)
    }
}

/// The first index at which `c` occurs in `s`, or the length of `s` when `s`
/// does not contain `c`.
pub open spec fn find(s: Seq<char>, c: char) -> int {
    find_from(s, c, 0)
}

/// `find_from` returns the first occurrence at or after the start.
pub proof fn lemma_find_from(s: Seq<char>, c: char, i: int)
    requires
        0 <= i <= s.len(),
    ensures
        i <= find_from(s, c, i) <= s.len(),
        find_from(s, c, i) < s.len() ==> s[find_from(s, c, i)] == c,
        forall|j: int| i <= j < find_from(s, c, i) ==> s[j] != c,
    decreases s.len() - i,
{
    if i < s.len() && s[i] != c {
        lemma_find_from(s, c, i + 1);
    }
}

/// Any index that has the defining property of the first occurrence is the
/// one that `find_from` returns.
pub proof fn lemma_find_from_is(s: Seq<char>, c: char, i: int, k: int)
    requires
        0 <= i <= k <= s.len(),
        k < s.len() ==> s[k] == c,
        forall|j: int| i <= j < k ==> s[j] != c,
    ensures
        find_from(s, c, i) == k,
    decreases k - i,
{
    if i < k {
        lemma_find_from_is(s, c, i + 1, k);
    }
}

/// The first index in `v[from..to]` that holds `c`, or `to`.
pub(crate) fn find_char(v: &Vec<char>, from: usize, to: usize, c: char) -> (k: usize)
    requires
        from <= to <= v.len(),
    ensures
        from <= k <= to,
        k - from == find(v@.subrange(from as int, to as int), c),
        k < to ==> v@[k as int] == c,
        forall|j: int| from <= j < k ==> v@[j] != c,
{
    let mut k: usize = from;
    while k < to && v[k] != c
        invariant
            from <= k <= to <= v.len(),
            forall|j: int| from <= j < k ==> v@[j] != c,
        decreases to - k,
    {
        k += 1;
    }
    proof {
        let t = v@.subrange(from as int, to as int);
        assert forall|j: int| 0 <= j < k - from implies t[j] != c by {
            assert(t[j] == v@[j + from]);
        }
        lemma_find_from_is(t, c, 0, k - from);
    }
    k
}

/// A line as `str::lines` hands it out: the text up to a line feed, without
/// the carriage return that may stand directly before that line feed.
pub open spec fn without_cr(line: Seq<char>) -> Seq<char> {
    if line.len() > 0 && line.last() == '\r' {
        line.drop_last()
    } else {
        line
    }
}

/// The lines of a text. Lines end at a line feed or at a carriage return
/// followed by a line feed; the terminator is not part of the line. A last
/// line without terminator is kept as it stands, and a text that ends with a
/// terminator has no empty line after it.
pub open spec fn lines(s: Seq<char>) -> Seq<Seq<char>>
    decreases s.len(),
{
    if s.len() == 0 {
        Seq::empty()
    } else {
        let k = find(s, '\n');
        if k < 0 || k >= s.len() {
            seq![s]
        } else {
            seq![without_cr(s.take(k))] + lines(s.skip(k + 1))
        }
    }
}

/// The bounds of the line that starts at `pos`, and the start of the text
/// after it.
pub(crate) fn next_line(v: &Vec<char>, pos: usize) -> (r: (usize, usize))
    requires
        pos < v.len(),
    ensures
        pos <= r.0 <= r.1 <= v.len(),
        pos < r.1,
        lines(v@.skip(pos as int)) == seq![v@.subrange(pos as int, r.0 as int)] + lines(
            v@.skip(r.1 as int),
        ),
{
    let n = v.len();
    let k = find_char(v, pos, n, '\n');
    proof {
        let s = v@.skip(pos as int);
        assert(s =~= v@.subrange(pos as int, n as int));
        lemma_find_from(s, '\n', 0);
    }
    if k >= n {
        proof {
            let s = v@.skip(pos as int);
            assert(s =~= v@.subrange(pos as int, n as int));
            assert(v@.skip(n as int).len() == 0);
            assert(lines(v@.skip(n as int)) =~= Seq::<Seq<char>>::empty());
            assert(seq![s] + Seq::<Seq<char>>::empty() =~= seq![s]);
        }
        (n, n)
    } else {
        let end = if k > pos && v[k - 1] == '\r' {
            k - 1
        } else {
            k
        };
        proof {
            let s = v@.skip(pos as int);
            assert(s =~= v@.subrange(pos as int, n as int));
            let line = s.take(k - pos);
            assert(line =~= v@.subrange(pos as int, k as int));
            assert(without_cr(line) =~= v@.subrange(pos as int, end as int));
            assert(s.skip(k - pos + 1) =~= v@.skip(k + 1));
        }
        (end, k + 1)
    }
}

/// The characters that `char::is_ascii_whitespace` accepts: space, tab, line
/// feed, form feed and carriage return.
pub open spec fn is_space(c: char) -> bool {
    c == ' ' || c == '\t' || c == '\n' || c == '\u{c}' || c == '\r'
}

/// Executable form of [`is_space`].
pub fn is_space_char(c: char) -> (r: bool)
    ensures
        r == is_space(c),
{
    c == ' ' || c == '\t' || c == '\n' || c == '\u{c}' || c == '\r'
}

/// The first index at or after `i` that holds white space if `space` is set,
/// or anything else if it is not; the length of `s` when there is none.
pub open spec fn scan(s: Seq<char>, space: bool, i: int) -> int
    decreases s.len() - i,
{
    if i < 0 || i >= s.len() {
        s.len() as int
    } else if is_space(s[i]) == space {
        i
    } else {
        scan(s, space, i + 1)
    }
}

/// `scan` stays within the sequence and passes only what it is asked to skip.
pub proof fn lemma_scan(s: Seq<char>, space: bool, i: int)
    requires
        0 <= i <= s.len(),
    ensures
        i <= scan(s, space, i) <= s.len(),
        scan(s, space, i) < s.len() ==> is_space(s[scan(s, space, i)]) == space,
        forall|j: int| i <= j < scan(s, space, i) ==> is_space(s[j]) != space,
    decreases s.len() - i,
{
    if i < s.len() && is_space(s[i]) != space {
        lemma_scan(s, space, i + 1);
    }
}

/// The fields of a line from position `i` on: the maximal runs of
/// characters that are not white space, in order.
pub open spec fn fields_from(s: Seq<char>, i: int) -> Seq<Seq<char>>
    decreases s.len() - i,
{
    let start = scan(s, false, i);
    let end = scan(s, true, start);
    if i < 0 || start < i || start >= s.len() || end <= start || end > s.len() {
        Seq::empty()
    } else {
        seq![s.subrange(start, end)] + fields_from(s, end)
    }
}

/// The fields of a line, as `str::split_ascii_whitespace` hands them out.
pub open spec fn fields(s: Seq<char>) -> Seq<Seq<char>> {
    fields_from(s, 0)
}

/// Executable form of [`scan`] on `v[..to]`.
pub(crate) fn scan_chars(v: &Vec<char>, space: bool, from: usize, to: usize) -> (k: usize)
    requires
        from <= to <= v.len(),
    ensures
        from <= k <= to,
        k == scan(v@.take(to as int), space, from as int),
{
    let mut k: usize = from;
    while k < to && is_space_char(v[k]) != space
        invariant
            from <= k <= to <= v.len(),
            scan(v@.take(to as int), space, from as int) == scan(v@.take(to as int), space, k as int),
        decreases to - k,
    {
        k += 1;
    }
    k
}

/// The fields of a line, in order.
pub fn split_fields(line: &Vec<char>) -> (r: Vec<String>)
    ensures
        r.deep_view() == fields(line@),
{
    let n = line.len();
    let mut r: Vec<String> = Vec::new();
    let mut pos: usize = 0;
    proof {
        assert(line@.take(n as int) =~= line@);
        assert(r.deep_view() =~= Seq::<Seq<char>>::empty());
        assert(r.deep_view() + fields_from(line@, 0) =~= fields_from(line@, 0));
    }
    loop
        invariant
            pos <= n,
            n == line.len(),
            line@.take(n as int) == line@,
            fields(line@) == r.deep_view() + fields_from(line@, pos as int),
        decreases n - pos,
    {
        let start = scan_chars(line, false, pos, n);
        let end = scan_chars(line, true, start, n);
        proof {
            lemma_scan(line@, false, pos as int);
            lemma_scan(line@, true, start as int);
        }
        if start >= n || end <= start {
            proof {
                assert(fields_from(line@, pos as int) =~= Seq::<Seq<char>>::empty());
                assert(r.deep_view() + Seq::<Seq<char>>::empty() =~= r.deep_view());
            }
            return r;
        }
        let field = string_of(line, start, end);
        let ghost before = r.deep_view();
        r.push(field);
        proof {
            let rest = fields_from(line@, end as int);
            assert(r.deep_view() =~= before.push(field@));
            assert(before + (seq![field@] + rest) =~= before.push(field@) + rest);
        }
        pos = end;
    }
}

/// A copy of `v[from..to]`.
pub(crate) fn slice_of(v: &Vec<char>, from: usize, to: usize) -> (r: Vec<char>)
    requires
        from <= to <= v.len(),
    ensures
        r@ == v@.subrange(from as int, to as int),
{
    let mut r: Vec<char> = Vec::new();
    let mut i: usize = from;
    while i < to
        invariant
            from <= i <= to <= v.len(),
            r@ == v@.subrange(from as int, i as int),
        decreases to - i,
    {
        r.push(v[i]);
        assert(r@ =~= v@.subrange(from as int, i + 1));
        i += 1;
    }
    r
}

} // verus!
