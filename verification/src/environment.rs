//! The environment of the GRUB evaluator: its variables, and the commands
//! that read and change them.

use crate::assoc::{
    assoc, has_key, keys_distinct, lemma_assoc_absent, lemma_assoc_lookup, lemma_assoc_push,
    lemma_assoc_remove, lemma_assoc_update,
};
use crate::error::GrubEnvironmentError;
use crate::predicate::{evaluate_test, test_verdict, unreadable_text, FileStatus, Verdict};
use crate::text::{chars_of, find, find_char, push_char, same_text, string_of};
use vstd::prelude::*;
use vstd::string::*;

verus! {

/// The variables of one device's GRUB configuration.
///
/// Seen from outside it is a map from names to values. No name is held
/// twice.
pub struct TinybootGrubEnvironment {
    env: Vec<(String, String)>,
}

impl View for TinybootGrubEnvironment {
    type V = Map<Seq<char>, Seq<char>>;

    closed spec fn view(&self) -> Map<Seq<char>, Seq<char>> {
        assoc(self.env.deep_view())
    }
}

/// A text without its round brackets.
pub open spec fn strip_parens(s: Seq<char>) -> Seq<char> {
    s.filter(|c: char| c != '(' && c != ')')
}

/// The texts joined by single spaces.
pub open spec fn joined(parts: Seq<Seq<char>>) -> Seq<char>
    decreases parts.len(),
{
    if parts.len() == 0 {
        Seq::empty()
    } else if parts.len() == 1 {
        parts[0]
    } else {
        joined(parts.drop_last()) + seq![' '] + parts.last()
    }
}

/// The assignment that `set` is asked for: the first argument after the
/// name of the command, split at its first `=`. There is none when that
/// argument is missing or holds no `=`.
pub open spec fn set_assignment(args: Seq<Seq<char>>) -> Option<(Seq<char>, Seq<char>)> {
    if args.len() < 2 {
        None
    } else {
        let k = find(args[1], '=');
        if k < 0 || k >= args[1].len() {
            None
        } else {
            Some((args[1].take(k), args[1].skip(k + 1)))
        }
    }
}

/// The environment after an assignment: an empty value clears the variable.
pub open spec fn assigned(
    env: Map<Seq<char>, Seq<char>>,
    name: Seq<char>,
    value: Seq<char>,
) -> Map<Seq<char>, Seq<char>> {
    if value.len() == 0 {
        env.remove(name)
    } else {
        env.insert(name, value)
    }
}

/// Whether a result is the one that stands for a verdict of `test`.
pub open spec fn stands_for(result: Result<(), GrubEnvironmentError>, verdict: Verdict) -> bool {
    match verdict {
        Verdict::Holds => result is Ok,
        Verdict::Fails => result matches Err(GrubEnvironmentError::False),
        Verdict::Malformed => result matches Err(GrubEnvironmentError::InvalidArgs),
        Verdict::NotANumber => result matches Err(GrubEnvironmentError::ParseInt),
        Verdict::Unreadable => result matches Err(GrubEnvironmentError::Io(_)),
    }
}

/// Executable form of [`strip_parens`].
pub fn without_parens(s: &str) -> (r: String)
    ensures
        r@ == strip_parens(s@),
{
    let v = chars_of(s);
    let mut r = String::new();
    let mut i: usize = 0;
    proof {
        reveal(Seq::filter);
        assert(v@.take(0) =~= Seq::<char>::empty());
    }
    while i < v.len()
        invariant
            i <= v.len(),
            r@ == strip_parens(v@.take(i as int)),
        decreases v.len() - i,
    {
        let c = v[i];
        proof {
            reveal(Seq::filter);
            assert(v@.take(i + 1).drop_last() =~= v@.take(i as int));
            assert(v@.take(i + 1).last() == c);
        }
        if c != '(' && c != ')' {
            push_char(&mut r, c);
        }
        i += 1;
    }
    proof {
        assert(v@.take(v.len() as int) =~= v@);
    }
    r
}

/// The arguments from index `from` on, joined by single spaces.
pub(crate) fn join_from(args: &Vec<String>, from: usize) -> (r: String)
    requires
        from <= args.len(),
    ensures
        r@ == joined(args.deep_view().skip(from as int)),
{
    let ghost parts = args.deep_view().skip(from as int);
    let mut r = String::new();
    let mut i: usize = from;
    proof {
        assert(parts.take(0) =~= Seq::<Seq<char>>::empty());
    }
    while i < args.len()
        invariant
            from <= i <= args.len(),
            parts == args.deep_view().skip(from as int),
            r@ == joined(parts.take(i - from)),
        decreases args.len() - i,
    {
        proof {
            let t = parts.take(i - from + 1);
            assert(t.drop_last() =~= parts.take(i - from));
            assert(t.last() == args@[i as int]@);
            reveal_strlit(" ");
            assert(" "@ =~= seq![' ']);
            if i == from {
                assert(joined(parts.take(0)) =~= Seq::<char>::empty());
                assert(Seq::<char>::empty() + args@[i as int]@ =~= args@[i as int]@);
            }
        }
        if i > from {
            r.append(" ");
        }
        r.append(args[i].as_str());
        i += 1;
    }
    proof {
        assert(parts.take(args.len() - from) =~= parts);
    }
    r
}

impl TinybootGrubEnvironment {
    #[verifier::type_invariant]
    spec fn well_formed(self) -> bool {
        keys_distinct(self.env.deep_view())
    }

    /// The index at which the variable `key` is held.
    fn position(&self, key: &str) -> (r: Option<usize>)
        ensures
            match r {
                Some(i) => i < self.env.len() && self.env.deep_view()[i as int].0 == key@,
                None => !has_key(self.env.deep_view(), key@),
            },
    {
        let mut i: usize = 0;
        while i < self.env.len()
            invariant
                i <= self.env.len(),
                forall|j: int| 0 <= j < i ==> (#[trigger] self.env.deep_view()[j]).0 != key@,
            decreases self.env.len() - i,
        {
            if same_text(self.env[i].0.as_str(), key) {
                return Some(i);
            }
            i += 1;
        }
        None
    }

    /// A new environment for a configuration found under `prefix`: the last
    /// exit code is 0, the platform is `tinyboot`, and `default` and
    /// `timeout` are not set.
    pub fn new(prefix: &str) -> (r: Self)
        ensures
            r@ == Map::<Seq<char>, Seq<char>>::empty().insert("?"@, "0"@).insert(
                "prefix"@,
                prefix@,
            ).insert("grub_platform"@, "tinyboot"@),
    {
        let mut r = TinybootGrubEnvironment { env: Vec::new() };
        proof {
            assert(r.env.deep_view() =~= Seq::<(Seq<char>, Seq<char>)>::empty());
            assert(r@ =~= Map::<Seq<char>, Seq<char>>::empty());
        }
        r.set_env("?".to_string(), Some("0".to_string()));
        r.set_env("prefix".to_string(), Some(prefix.to_string()));
        r.set_env("grub_platform".to_string(), Some("tinyboot".to_string()));
        r
    }

    /// The value of a variable, if it is set.
    pub fn get_env(&self, key: &str) -> (r: Option<&String>)
        ensures
            match r {
                Some(value) => self@.contains_key(key@) && value@ == self@[key@],
                None => !self@.contains_key(key@),
            },
    {
        proof {
            use_type_invariant(self);
        }
        match self.position(key) {
            Some(i) => {
                proof {
                    lemma_assoc_lookup(self.env.deep_view(), i as int);
                }
                Some(&self.env[i].1)
            },
            None => None,
        }
    }

    /// Sets a variable, or clears it when no value is given.
    pub fn set_env(&mut self, key: String, val: Option<String>)
        ensures
            final(self)@ == match val {
                Some(value) => old(self)@.insert(key@, value@),
                None => old(self)@.remove(key@),
            },
    {
        proof {
            use_type_invariant(&*self);
        }
        let ghost before = self.env.deep_view();
        let found = self.position(key.as_str());
        let mut taken = TinybootGrubEnvironment { env: Vec::new() };
        proof {
            assert(taken.env.deep_view() =~= Seq::<(Seq<char>, Seq<char>)>::empty());
        }
        core::mem::swap(self, &mut taken);
        let mut env = taken.env;
        match val {
            Some(value) => match found {
                Some(i) => {
                    proof {
                        lemma_assoc_update(before, i as int, value@);
                    }
                    env.set(i, (key, value));
                    assert(env.deep_view() =~= before.update(i as int, (key@, value@)));
                },
                None => {
                    proof {
                        lemma_assoc_push(before, key@, value@);
                    }
                    env.push((key, value));
                    assert(env.deep_view() =~= before.push((key@, value@)));
                },
            },
            None => match found {
                Some(i) => {
                    proof {
                        lemma_assoc_remove(before, i as int);
                    }
                    env.remove(i);
                    assert(env.deep_view() =~= before.remove(i as int));
                },
                None => {
                    proof {
                        lemma_assoc_absent(before, key@);
                        assert(assoc(before).remove(key@) =~= assoc(before));
                    }
                },
            },
        }
        *self = TinybootGrubEnvironment { env };
    }

    /// A copy of the environment. What is done to the copy is not seen
    /// here.
    pub fn duplicate(&self) -> (r: Self)
        ensures
            r@ == self@,
    {
        proof {
            use_type_invariant(self);
        }
        let mut env: Vec<(String, String)> = Vec::new();
        let mut i: usize = 0;
        while i < self.env.len()
            invariant
                i <= self.env.len(),
                env.deep_view() == self.env.deep_view().take(i as int),
            decreases self.env.len() - i,
        {
            let ghost before = env.deep_view();
            let name = self.env[i].0.clone();
            let value = self.env[i].1.clone();
            env.push((name, value));
            assert(env.deep_view() =~= before.push((name@, value@)));
            assert(self.env.deep_view()[i as int] == (name@, value@));
            assert(env.deep_view() =~= self.env.deep_view().take(i + 1));
            i += 1;
        }
        assert(env.deep_view() =~= self.env.deep_view());
        TinybootGrubEnvironment { env }
    }

    /// `initrd`: stores the first argument after the name of the command,
    /// without round brackets, as `initrd`. Fails without such an argument.
    pub fn run_initrd(&mut self, args: Vec<String>) -> (r: Result<(), GrubEnvironmentError>)
        ensures
            args.len() < 2 ==> (r matches Err(GrubEnvironmentError::InvalidArgs)) && final(self)@
                == old(self)@,
            args.len() >= 2 ==> r is Ok && final(self)@ == old(self)@.insert(
                "initrd"@,
                strip_parens(args.deep_view()[1]),
            ),
    {
        if args.len() < 2 {
            return Err(GrubEnvironmentError::InvalidArgs);
        }
        let initrd = without_parens(args[1].as_str());
        self.set_env("initrd".to_string(), Some(initrd));
        Ok(())
    }

    /// `linux`: stores the first argument after the name of the command,
    /// without round brackets, as `linux`, and the arguments after it,
    /// joined by spaces, as `linux_cmdline`. Fails without a first argument.
    pub fn run_linux(&mut self, args: Vec<String>) -> (r: Result<(), GrubEnvironmentError>)
        ensures
            args.len() < 2 ==> (r matches Err(GrubEnvironmentError::InvalidArgs)) && final(self)@
                == old(self)@,
            args.len() >= 2 ==> r is Ok && final(self)@ == old(self)@.insert(
                "linux"@,
                strip_parens(args.deep_view()[1]),
            ).insert("linux_cmdline"@, joined(args.deep_view().skip(2))),
    {
        if args.len() < 2 {
            return Err(GrubEnvironmentError::InvalidArgs);
        }
        let kernel = without_parens(args[1].as_str());
        self.set_env("linux".to_string(), Some(kernel));
        let cmdline = join_from(&args, 2);
        self.set_env("linux_cmdline".to_string(), Some(cmdline));
        Ok(())
    }

    /// `set`: an argument `KEY=VALUE` assigns, `KEY=` clears. Fails when
    /// the argument is missing or holds no `=`.
    pub fn run_set(&mut self, args: Vec<String>) -> (r: Result<(), GrubEnvironmentError>)
        ensures
            match set_assignment(args.deep_view()) {
                Some((name, value)) => r is Ok && final(self)@ == assigned(
                    old(self)@,
                    name,
                    value,
                ),
                None => (r matches Err(GrubEnvironmentError::InvalidArgs)) && final(self)@
                    == old(self)@,
            },
    {
        if args.len() < 2 {
            return Err(GrubEnvironmentError::InvalidArgs);
        }
        let text = chars_of(args[1].as_str());
        let n = text.len();
        let k = find_char(&text, 0, n, '=');
        proof {
            assert(text@.subrange(0, n as int) =~= text@);
        }
        if k >= n {
            return Err(GrubEnvironmentError::InvalidArgs);
        }
        let name = string_of(&text, 0, k);
        let value = string_of(&text, k + 1, n);
        proof {
            assert(text@.take(k as int) =~= name@);
            assert(text@.skip(k + 1) =~= value@);
        }
        if k + 1 == n {
            self.set_env(name, None);
        } else {
            self.set_env(name, Some(value));
        }
        Ok(())
    }

    /// `test`: evaluates a condition on strings, integers or files.
    ///
    /// `files` holds, for each path that [`crate::predicate::test_operands`]
    /// names for these arguments, its status or the message of the failure
    /// to read it. With fewer than one or more than three arguments after
    /// the name of the command the invocation is malformed.
    pub fn run_test(&self, args: Vec<String>, files: &Vec<Result<FileStatus, String>>) -> (r:
        Result<(), GrubEnvironmentError>)
        ensures
            stands_for(r, test_verdict(args.deep_view(), files@)),
            r matches Err(GrubEnvironmentError::Io(message)) ==> message@ == unreadable_text(
                files@,
            ),
            args.len() < 2 || args.len() > 4 ==> r matches Err(GrubEnvironmentError::InvalidArgs),
    {
        let outcome = evaluate_test(&args, files);
        match outcome.verdict {
            Verdict::Holds => Ok(()),
            Verdict::Fails => Err(GrubEnvironmentError::False),
            Verdict::Malformed => Err(GrubEnvironmentError::InvalidArgs),
            Verdict::NotANumber => Err(GrubEnvironmentError::ParseInt),
            Verdict::Unreadable => Err(GrubEnvironmentError::Io(outcome.message)),
        }
    }
}

} // verus!
