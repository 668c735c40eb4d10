//! The commands of the environment that need the system: `load_env`,
//! `save_env` and `search`, and the dispatch of a command by its name.
//!
//! The environment itself touches no file and no device. For a command that
//! needs the system it says what it needs, and takes what the system
//! answered as an argument.

use crate::args::{
    block_file, block_parsed, search_parsed, LoadEnvArgs, SaveEnvArgs, SearchArgs, SearchModel,
};
use crate::assoc::{has_key, Pairs};
use crate::device::{
    fs_label, fs_mount_type, fs_uuid, mount_name, mountpoint_for, probed, ProbedDevice,
    ProbedModel,
};
use crate::envblock::{
    block_content, byte_len, environment_block, grub_environment_block, lemma_block_round_trip,
    load_env, loaded_env, storable, GRUB_ENVIRONMENT_BLOCK_LENGTH,
};
use crate::environment::{
    assigned, joined, set_assignment, strip_parens, TinybootGrubEnvironment,
};
use crate::error::{exit_code, exit_code_of, GrubEnvironmentError};
use crate::mountinfo::{mountinfo_from_source, mountpoint_of};
use crate::predicate::{test_files, test_operands, test_verdict, FileStatus, Verdict};
use crate::text::{chars_of, push_char, same_text};
use vstd::prelude::*;
use vstd::string::*;

verus! {

/// A path joined to a base directory: an absolute path stands for itself;
/// any other path is appended to the base, behind a `/` unless the base is
/// empty or ends with one.
pub open spec fn join_path(base: Seq<char>, path: Seq<char>) -> Seq<char> {
    if path.len() > 0 && path[0] == '/' {
        path
    } else if base.len() > 0 && base.last() != '/' {
        base + seq!['/'] + path
    } else {
        base + path
    }
}

/// Executable form of [`join_path`].
pub fn path_join(base: &str, path: &str) -> (r: String)
    ensures
        r@ == join_path(base@, path@),
{
    let b = chars_of(base);
    let p = chars_of(path);
    if p.len() > 0 && p[0] == '/' {
        return path.to_string();
    }
    let mut r = base.to_string();
    if b.len() > 0 && b[b.len() - 1] != '/' {
        push_char(&mut r, '/');
    }
    r.append(path);
    proof {
        assert(r@ =~= join_path(base@, path@));
    }
    r
}

/// The environment after the given variables were set one after the other.
pub open spec fn merged(env: Map<Seq<char>, Seq<char>>, entries: Pairs) -> Map<
    Seq<char>,
    Seq<char>,
>
    decreases entries.len(),
{
    if entries.len() == 0 {
        env
    } else {
        merged(env, entries.drop_last()).insert(entries.last().0, entries.last().1)
    }
}

/// Whether `save_env` writes a variable: it is named and it is set.
pub open spec fn is_saved(
    env: Map<Seq<char>, Seq<char>>,
    names: Seq<Seq<char>>,
    key: Seq<char>,
) -> bool {
    names.contains(key) && env.contains_key(key)
}

/// The pairs of a block with the variables that are saved overwritten:
/// where such a variable stands first, it gets its value of the
/// environment; its further lines are left out. Every other pair stays.
pub open spec fn replaced(
    held: Pairs,
    env: Map<Seq<char>, Seq<char>>,
    names: Seq<Seq<char>>,
) -> Pairs
    decreases held.len(),
{
    if held.len() == 0 {
        Seq::empty()
    } else {
        let front = replaced(held.drop_last(), env, names);
        let key = held.last().0;
        if !is_saved(env, names, key) {
            front.push(held.last())
        } else if has_key(held.drop_last(), key) {
            front
        } else {
            front.push((key, env[key]))
        }
    }
}

/// The variables, among the first of `names`, that are set and that the
/// block does not hold, each once, with its value of the environment.
pub open spec fn added(held: Pairs, env: Map<Seq<char>, Seq<char>>, names: Seq<Seq<char>>) -> Pairs
    decreases names.len(),
{
    if names.len() == 0 {
        Seq::empty()
    } else {
        let front = added(held, env, names.drop_last());
        let key = names.last();
        if env.contains_key(key) && !has_key(held, key) && !names.drop_last().contains(key) {
            front.push((key, env[key]))
        } else {
            front
        }
    }
}

/// What `save_env` writes: the pairs of the block with the named variables
/// that are set overwritten, followed by those of them that the block did
/// not hold. A named variable that is not set is left as the block has
/// it.
pub open spec fn saved(held: Pairs, env: Map<Seq<char>, Seq<char>>, names: Seq<Seq<char>>) -> Pairs {
    replaced(held, env, names) + added(held, env, names)
}

/// How often a variable occurs in a list of pairs.
pub open spec fn occurrences(s: Pairs, key: Seq<char>) -> nat
    decreases s.len(),
{
    if s.len() == 0 {
        0
    } else if s.last().0 == key {
        occurrences(s.drop_last(), key) + 1
    } else {
        occurrences(s.drop_last(), key)
    }
}

/// The pairs of the variables that `save_env` does not write, in order.
pub open spec fn untouched(s: Pairs, env: Map<Seq<char>, Seq<char>>, names: Seq<Seq<char>>) -> Pairs
    decreases s.len(),
{
    if s.len() == 0 {
        Seq::empty()
    } else if is_saved(env, names, s.last().0) {
        untouched(s.drop_last(), env, names)
    } else {
        untouched(s.drop_last(), env, names).push(s.last())
    }
}

/// Whether every pair of a variable holds the given value.
pub open spec fn holds_only(s: Pairs, key: Seq<char>, value: Seq<char>) -> bool {
    forall|i: int| 0 <= i < s.len() && (#[trigger] s[i]).0 == key ==> s[i].1 == value
}

/// Occurrences and untouched pairs of two lists, one after the other.
pub proof fn lemma_pairs_add(
    a: Pairs,
    b: Pairs,
    env: Map<Seq<char>, Seq<char>>,
    names: Seq<Seq<char>>,
    key: Seq<char>,
)
    ensures
        occurrences(a + b, key) == occurrences(a, key) + occurrences(b, key),
        untouched(a + b, env, names) == untouched(a, env, names) + untouched(b, env, names),
    decreases b.len(),
{
    if b.len() == 0 {
        assert(a + b =~= a);
        assert(untouched(a, env, names) + untouched(b, env, names) =~= untouched(a, env, names));
    } else {
        lemma_pairs_add(a, b.drop_last(), env, names, key);
        assert((a + b).drop_last() =~= a + b.drop_last());
        assert((a + b).last() == b.last());
        assert(untouched(a + b, env, names) =~= untouched(a, env, names) + untouched(
            b,
            env,
            names,
        ));
    }
}

/// A variable that no pair has does not occur.
pub proof fn lemma_absent_occurs_not(s: Pairs, key: Seq<char>)
    ensures
        has_key(s, key) <==> occurrences(s, key) > 0,
    decreases s.len(),
{
    if s.len() > 0 {
        lemma_absent_occurs_not(s.drop_last(), key);
        if has_key(s, key) {
            let i = choose|i: int| 0 <= i < s.len() && (#[trigger] s[i]).0 == key;
            if i < s.len() - 1 {
                assert(s.drop_last()[i] == s[i]);
            }
        }
        if has_key(s.drop_last(), key) {
            let i = choose|i: int|
                0 <= i < s.drop_last().len() && (#[trigger] s.drop_last()[i]).0 == key;
            assert(s[i] == s.drop_last()[i]);
        }
        if s.last().0 == key {
            assert(s[s.len() - 1].0 == key);
        }
    }
}

/// What overwriting does to the pairs of a block: a variable that is saved
/// occurs once if the block held it and not at all if it did not, with the
/// value of the environment; the other pairs are as they were.
pub proof fn lemma_replaced(
    held: Pairs,
    env: Map<Seq<char>, Seq<char>>,
    names: Seq<Seq<char>>,
    key: Seq<char>,
)
    ensures
        untouched(replaced(held, env, names), env, names) == untouched(held, env, names),
        is_saved(env, names, key) ==> occurrences(replaced(held, env, names), key) == (if has_key(
            held,
            key,
        ) {
            1nat
        } else {
            0nat
        }) && holds_only(replaced(held, env, names), key, env[key]),
    decreases held.len(),
{
    if held.len() > 0 {
        let front = held.drop_last();
        let last = held.last();
        lemma_replaced(front, env, names, key);
        lemma_replaced(front, env, names, last.0);
        lemma_absent_occurs_not(front, key);
        lemma_absent_occurs_not(held, key);
        lemma_absent_occurs_not(front, last.0);
        let r = replaced(held, env, names);
        let rf = replaced(front, env, names);
        if !is_saved(env, names, last.0) {
            assert(r == rf.push(last));
            assert(r.drop_last() =~= rf);
            assert(r.last() == last);
        } else if has_key(front, last.0) {
            assert(r == rf);
        } else {
            assert(r == rf.push((last.0, env[last.0])));
            assert(r.drop_last() =~= rf);
            assert(r.last() == (last.0, env[last.0]));
        }
        if is_saved(env, names, key) {
            assert forall|i: int| 0 <= i < r.len() && (#[trigger] r[i]).0 == key implies r[i].1
                == env[key] by {
                if i < rf.len() {
                    assert(r[i] == rf[i]);
                }
            }
        }
    } else {
        lemma_absent_occurs_not(held, key);
    }
}

/// What is added behind the pairs of a block: only variables that are
/// saved; such a variable occurs once if it is among the names and the
/// block did not hold it, and not at all else, with the value of the
/// environment.
pub proof fn lemma_added(
    held: Pairs,
    env: Map<Seq<char>, Seq<char>>,
    all: Seq<Seq<char>>,
    names: Seq<Seq<char>>,
    key: Seq<char>,
)
    requires
        forall|x: Seq<char>| names.contains(x) ==> all.contains(x),
    ensures
        untouched(added(held, env, names), env, all) == Seq::<(Seq<char>, Seq<char>)>::empty(),
        occurrences(added(held, env, names), key) == (if env.contains_key(key) && !has_key(
            held,
            key,
        ) && names.contains(key) {
            1nat
        } else {
            0nat
        }),
        holds_only(added(held, env, names), key, env[key]),
    decreases names.len(),
{
    if names.len() > 0 {
        let front = names.drop_last();
        assert forall|x: Seq<char>| front.contains(x) implies all.contains(x) by {
            let i = choose|i: int| 0 <= i < front.len() && front[i] == x;
            assert(names[i] == x);
        }
        lemma_added(held, env, all, front, key);
        assert(names[names.len() - 1] == names.last());
        assert(names.contains(names.last()));
        if names.contains(key) && key != names.last() {
            let i = choose|i: int| 0 <= i < names.len() && names[i] == key;
            assert(front[i] == key);
        }
        if front.contains(key) {
            let i = choose|i: int| 0 <= i < front.len() && front[i] == key;
            assert(names[i] == key);
        }
        let a = added(held, env, names);
        let af = added(held, env, front);
        let k0 = names.last();
        if env.contains_key(k0) && !has_key(held, k0) && !front.contains(k0) {
            assert(a == af.push((k0, env[k0])));
            assert(a.drop_last() =~= af);
            assert(a.last() == (k0, env[k0]));
            assert(all.contains(k0));
        } else {
            assert(a == af);
        }
        assert forall|i: int| 0 <= i < a.len() && (#[trigger] a[i]).0 == key implies a[i].1
            == env[key] by {
            if i < af.len() {
                assert(a[i] == af[i]);
            }
        }
    } else {
        assert(!names.contains(key));
    }
}

/// `save_env` overwrites: in what it writes, every named variable that is
/// set occurs exactly once, with its value of the environment, and the
/// pairs of all other variables are those of the block, unchanged and in
/// their order.
pub proof fn lemma_saved_overwrites(
    held: Pairs,
    env: Map<Seq<char>, Seq<char>>,
    names: Seq<Seq<char>>,
    key: Seq<char>,
)
    ensures
        untouched(saved(held, env, names), env, names) == untouched(held, env, names),
        is_saved(env, names, key) ==> occurrences(saved(held, env, names), key) == 1 && holds_only(
            saved(held, env, names),
            key,
            env[key],
        ),
{
    let r = replaced(held, env, names);
    let a = added(held, env, names);
    lemma_replaced(held, env, names, key);
    lemma_added(held, env, names, names, key);
    lemma_pairs_add(r, a, env, names, key);
    assert(untouched(r, env, names) + Seq::<(Seq<char>, Seq<char>)>::empty() =~= untouched(
        r,
        env,
        names,
    ));
    if is_saved(env, names, key) {
        assert forall|i: int| 0 <= i < (r + a).len() && (#[trigger] (r + a)[i]).0 == key implies (r
            + a)[i].1 == env[key] by {
            if i < r.len() {
                assert((r + a)[i] == r[i]);
            } else {
                assert((r + a)[i] == a[i - r.len()]);
            }
        }
    }
}

/// What `save_env` writes is read back as what the file held, with the
/// named variables overwritten: where the variables that are written can
/// be stored and fit into a block, the new block holds every named
/// variable that is set exactly once, with its value of the environment,
/// and the pairs of all other variables as the old block held them.
pub proof fn lemma_save_env_is_read_back(
    text: Seq<char>,
    env: Map<Seq<char>, Seq<char>>,
    names: Seq<Seq<char>>,
    key: Seq<char>,
)
    requires
        ({
            let written = saved(loaded_env(text, Seq::empty()), env, names);
            byte_len(block_content(written)) <= GRUB_ENVIRONMENT_BLOCK_LENGTH && forall|i: int|
                0 <= i < written.len() ==> storable(#[trigger] written[i])
        }),
    ensures
        ({
            let held = loaded_env(text, Seq::empty());
            let block = environment_block(saved(held, env, names));
            block matches Some(new) && untouched(loaded_env(new, Seq::empty()), env, names)
                == untouched(held, env, names) && (is_saved(env, names, key) ==> occurrences(
                loaded_env(new, Seq::empty()),
                key,
            ) == 1 && holds_only(loaded_env(new, Seq::empty()), key, env[key]))
        }),
{
    let held = loaded_env(text, Seq::empty());
    lemma_block_round_trip(saved(held, env, names));
    lemma_saved_overwrites(held, env, names, key);
}

/// The text that stands for an exit code between 0 and 2.
pub open spec fn code_text(code: u8) -> Seq<char> {
    if code == 0 {
        "0"@
    } else if code == 1 {
        "1"@
    } else {
        "2"@
    }
}

/// Whether a device is the one that `search` looks for.
pub open spec fn device_matches(args: SearchModel, device: ProbedModel) -> bool {
    if args.file {
        device.path == args.name
    } else if args.fs_uuid {
        device.fs_type matches Some(fs) && fs_uuid(fs) == args.name
    } else if args.label {
        device.fs_type matches Some(fs) && fs_label(fs) == args.name
    } else {
        false
    }
}

/// The index, from `i` on, of the first device that `search` looks for, or
/// the number of devices if there is none.
pub open spec fn first_match(args: SearchModel, devices: Seq<ProbedModel>, i: int) -> int
    decreases devices.len() - i,
{
    if i < 0 || i >= devices.len() {
        devices.len() as int
    } else if device_matches(args, devices[i]) {
        i
    } else {
        first_match(args, devices, i + 1)
    }
}

/// A file system to be mounted read-only.
#[derive(Debug, PartialEq, Eq)]
pub struct MountRequest {
    /// The device.
    pub source: String,
    /// The directory to mount it at.
    pub target: String,
    /// The name of the file system: `ext4` or `vfat`.
    pub fstype: String,
}

/// What `search` has found: the variable to set, the mount point to store
/// in it, and the mount to perform first unless the device is mounted.
#[derive(Debug, PartialEq, Eq)]
pub struct SearchPlan {
    pub var: String,
    pub mountpoint: String,
    pub mount: Option<MountRequest>,
}

/// How a `search` ends before anything is mounted.
pub enum Searched {
    /// The arguments are malformed or choose no criterion.
    Malformed,
    /// The devices could not be listed.
    Unlisted,
    /// No device matches.
    NotFound,
    /// The device that matches is not mounted and holds no known file
    /// system.
    Unmountable,
    /// The device is mounted at the given place: variable, mount point.
    Mounted(Seq<char>, Seq<char>),
    /// The device is to be mounted: variable, device, mount point, name of
    /// the file system.
    Mount(Seq<char>, Seq<char>, Seq<char>, Seq<char>),
}

/// What `search` finds for its arguments, given the devices of the system
/// and the text of its mount table, as far as either could be had.
///
/// The first device that matches is taken. If the mount table shows it
/// mounted, it stays where it is; else it is to be mounted under `/mnt`.
pub open spec fn searched(
    args: Seq<Seq<char>>,
    devices: Option<Seq<ProbedModel>>,
    mounts: Option<Seq<char>>,
) -> Searched {
    match search_parsed(args) {
        None => Searched::Malformed,
        Some(parsed) => if !parsed.file && !parsed.fs_uuid && !parsed.label {
            Searched::Malformed
        } else {
            match devices {
                None => Searched::Unlisted,
                Some(list) => {
                    let k = first_match(parsed, list, 0);
                    if k < 0 || k >= list.len() {
                        Searched::NotFound
                    } else {
                        let device = list[k];
                        let existing = match mounts {
                            Some(table) => mountpoint_of(table, device.path),
                            None => None,
                        };
                        match existing {
                            Some(mountpoint) => Searched::Mounted(parsed.set, mountpoint),
                            None => match device.fs_type {
                                None => Searched::Unmountable,
                                Some(fs) => Searched::Mount(
                                    parsed.set,
                                    device.path,
                                    mount_name(device.path),
                                    fs_mount_type(fs),
                                ),
                            },
                        }
                    }
                },
            }
        },
    }
}

/// Whether the result of planning a search stands for what was found.
pub open spec fn plan_stands_for(
    result: Result<SearchPlan, GrubEnvironmentError>,
    found: Searched,
) -> bool {
    match found {
        Searched::Malformed => result matches Err(GrubEnvironmentError::InvalidArgs),
        Searched::Unlisted => result matches Err(GrubEnvironmentError::Io(_)),
        Searched::NotFound => result matches Err(GrubEnvironmentError::Io(m)) && m@
            == "file not found"@,
        Searched::Unmountable => result matches Err(GrubEnvironmentError::Io(m)) && m@
            == "unknown file system"@,
        Searched::Mounted(var, mountpoint) => result matches Ok(plan) && plan.var@ == var
            && plan.mountpoint@ == mountpoint && plan.mount is None,
        Searched::Mount(var, source, target, fstype) => result matches Ok(plan) && plan.var@
            == var && plan.mountpoint@ == target && (plan.mount matches Some(request)
            && request.source@ == source && request.target@ == target && request.fstype@
            == fstype),
    }
}

/// Whether a device is the one that `search` looks for.
fn matches_device(args: &SearchArgs, device: &ProbedDevice) -> (r: bool)
    ensures
        r == device_matches(args@, device@),
{
    if args.file {
        device.path == args.name
    } else if args.fs_uuid {
        match &device.fs_type {
            Some(fs) => *fs.uuid() == args.name,
            None => false,
        }
    } else if args.label {
        match &device.fs_type {
            Some(fs) => *fs.label() == args.name,
            None => false,
        }
    } else {
        false
    }
}

/// What a command asks of its caller before it can end.
#[derive(Debug, PartialEq, Eq)]
pub enum CommandStep {
    /// The command has ended with this exit code.
    Exit(u8),
    /// `test` asks for the status of these paths; it ends with
    /// [`TinybootGrubEnvironment::run_test`].
    Stat(Vec<String>),
    /// `load_env` asks for the text of this file; it ends with
    /// [`TinybootGrubEnvironment::run_load_env`].
    Load(String),
    /// `save_env` asks for the text of this file, which is then to be
    /// written anew; it ends with [`TinybootGrubEnvironment::run_save_env`].
    Save(String),
    /// `search` asks for the devices of the system and for its mount table;
    /// it goes on with [`TinybootGrubEnvironment::search_plan`].
    Search,
}

/// The commands that the environment knows by name.
#[derive(Clone, Copy, Debug, PartialEq, Eq)]
pub enum Command {
    Initrd,
    Linux,
    LoadEnv,
    SaveEnv,
    Search,
    Assign,
    Test,
    /// `false`: it does nothing and does not succeed.
    False,
    /// Any other name.
    Unknown,
}

/// The command that a name stands for.
pub open spec fn command_named(name: Seq<char>) -> Command {
    if name == "initrd"@ {
        Command::Initrd
    } else if name == "linux"@ {
        Command::Linux
    } else if name == "load_env"@ {
        Command::LoadEnv
    } else if name == "save_env"@ {
        Command::SaveEnv
    } else if name == "search"@ {
        Command::Search
    } else if name == "set"@ {
        Command::Assign
    } else if name == "test"@ {
        Command::Test
    } else if name == "false"@ {
        Command::False
    } else {
        Command::Unknown
    }
}

/// Executable form of [`command_named`].
pub fn command_of(name: &str) -> (r: Command)
    ensures
        r == command_named(name@),
{
    if same_text(name, "initrd") {
        Command::Initrd
    } else if same_text(name, "linux") {
        Command::Linux
    } else if same_text(name, "load_env") {
        Command::LoadEnv
    } else if same_text(name, "save_env") {
        Command::SaveEnv
    } else if same_text(name, "search") {
        Command::Search
    } else if same_text(name, "set") {
        Command::Assign
    } else if same_text(name, "test") {
        Command::Test
    } else if same_text(name, "false") {
        Command::False
    } else {
        Command::Unknown
    }
}

/// The arguments of a command with its name in front.
pub fn with_name(command: &String, args_wo_command: &Vec<String>) -> (args: Vec<String>)
    ensures
        args.deep_view() == seq![command@] + args_wo_command.deep_view(),
{
    let mut args: Vec<String> = Vec::new();
    args.push(command.clone());
    let mut i: usize = 0;
    proof {
        assert(args.deep_view() =~= seq![command@] + args_wo_command.deep_view().take(0));
    }
    while i < args_wo_command.len()
        invariant
            i <= args_wo_command.len(),
            args.deep_view() == seq![command@] + args_wo_command.deep_view().take(i as int),
        decreases args_wo_command.len() - i,
    {
        let ghost before = args.deep_view();
        let arg = args_wo_command[i].clone();
        args.push(arg);
        proof {
            assert(args.deep_view() =~= before.push(arg@));
            assert(args.deep_view() =~= seq![command@] + args_wo_command.deep_view().take(i + 1));
        }
        i += 1;
    }
    proof {
        assert(args_wo_command.deep_view().take(args_wo_command.len() as int)
            =~= args_wo_command.deep_view());
    }
    args
}

/// Whether one of the first `upto` pairs has the given key.
fn key_before(pairs: &Vec<(String, String)>, upto: usize, key: &str) -> (r: bool)
    requires
        upto <= pairs.len(),
    ensures
        r == has_key(pairs.deep_view().take(upto as int), key@),
{
    let ghost part = pairs.deep_view().take(upto as int);
    let mut i: usize = 0;
    while i < upto
        invariant
            i <= upto <= pairs.len(),
            part == pairs.deep_view().take(upto as int),
            forall|j: int| 0 <= j < i ==> (#[trigger] part[j]).0 != key@,
        decreases upto - i,
    {
        assert(part[i as int] == pairs.deep_view()[i as int]);
        if same_text(pairs[i].0.as_str(), key) {
            return true;
        }
        i += 1;
    }
    false
}

/// Whether one of the first `upto` names is the given one.
fn name_before(names: &Vec<String>, upto: usize, name: &str) -> (r: bool)
    requires
        upto <= names.len(),
    ensures
        r == names.deep_view().take(upto as int).contains(name@),
{
    let ghost part = names.deep_view().take(upto as int);
    let mut i: usize = 0;
    while i < upto
        invariant
            i <= upto <= names.len(),
            part == names.deep_view().take(upto as int),
            forall|j: int| 0 <= j < i ==> part[j] != name@,
        decreases upto - i,
    {
        assert(part[i as int] == names@[i as int]@);
        if same_text(names[i].as_str(), name) {
            return true;
        }
        i += 1;
    }
    false
}

impl TinybootGrubEnvironment {
    /// Sets the given variables one after the other.
    pub fn merge(&mut self, entries: Vec<(String, String)>)
        ensures
            final(self)@ == merged(old(self)@, entries.deep_view()),
    {
        let mut i: usize = 0;
        proof {
            assert(entries.deep_view().take(0) =~= Seq::<(Seq<char>, Seq<char>)>::empty());
        }
        while i < entries.len()
            invariant
                i <= entries.len(),
                self@ == merged(old(self)@, entries.deep_view().take(i as int)),
            decreases entries.len() - i,
        {
            let name = entries[i].0.clone();
            let value = entries[i].1.clone();
            proof {
                let t = entries.deep_view().take(i + 1);
                assert(t.drop_last() =~= entries.deep_view().take(i as int));
                assert(t.last() == (name@, value@));
            }
            self.set_env(name, Some(value));
            i += 1;
        }
        proof {
            assert(entries.deep_view().take(entries.len() as int) =~= entries.deep_view());
        }
    }

    /// What `save_env` writes for the pairs that a block holds and the
    /// variables that are named.
    pub fn save(&self, held: &Vec<(String, String)>, names: &Vec<String>) -> (r: Vec<
        (String, String),
    >)
        ensures
            r.deep_view() == saved(held.deep_view(), self@, names.deep_view()),
    {
        let ghost pairs = held.deep_view();
        let ghost all = names.deep_view();
        let mut r: Vec<(String, String)> = Vec::new();
        let mut i: usize = 0;
        proof {
            assert(pairs.take(0) =~= Seq::<(Seq<char>, Seq<char>)>::empty());
            assert(r.deep_view() =~= Seq::<(Seq<char>, Seq<char>)>::empty());
            assert(all.take(all.len() as int) =~= all);
        }
        while i < held.len()
            invariant
                i <= held.len(),
                pairs == held.deep_view(),
                all == names.deep_view(),
                all.take(all.len() as int) == all,
                r.deep_view() == replaced(pairs.take(i as int), self@, all),
            decreases held.len() - i,
        {
            let ghost before = r.deep_view();
            proof {
                assert(pairs.take(i + 1).drop_last() =~= pairs.take(i as int));
                assert(pairs.take(i + 1).last() == (held@[i as int].0@, held@[i as int].1@));
            }
            let key = held[i].0.as_str();
            let value = if name_before(names, names.len(), key) {
                self.get_env(key)
            } else {
                None
            };
            match value {
                None => {
                    let name = held[i].0.clone();
                    let kept = held[i].1.clone();
                    r.push((name, kept));
                    proof {
                        assert(r.deep_view() =~= before.push((name@, kept@)));
                    }
                },
                Some(new) => {
                    if !key_before(held, i, key) {
                        let name = held[i].0.clone();
                        let set = new.clone();
                        r.push((name, set));
                        proof {
                            assert(r.deep_view() =~= before.push((name@, set@)));
                        }
                    }
                },
            }
            i += 1;
        }
        let ghost front = r.deep_view();
        let mut j: usize = 0;
        proof {
            assert(pairs.take(held.len() as int) =~= pairs);
            assert(all.take(0) =~= Seq::<Seq<char>>::empty());
            assert(front + Seq::<(Seq<char>, Seq<char>)>::empty() =~= front);
        }
        while j < names.len()
            invariant
                j <= names.len(),
                pairs == held.deep_view(),
                pairs.take(held.len() as int) == pairs,
                all == names.deep_view(),
                r.deep_view() == front + added(pairs, self@, all.take(j as int)),
            decreases names.len() - j,
        {
            let ghost before = r.deep_view();
            let ghost so_far = added(pairs, self@, all.take(j as int));
            proof {
                assert(all.take(j + 1).drop_last() =~= all.take(j as int));
                assert(all.take(j + 1).last() == names@[j as int]@);
            }
            let key = names[j].as_str();
            match self.get_env(key) {
                Some(value) => {
                    if !key_before(held, held.len(), key) && !name_before(names, j, key) {
                        let name = names[j].clone();
                        let set = value.clone();
                        r.push((name, set));
                        proof {
                            assert(r.deep_view() =~= before.push((name@, set@)));
                            assert(before.push((name@, set@)) =~= front + so_far.push(
                                (name@, set@),
                            ));
                        }
                    }
                },
                None => {},
            }
            j += 1;
        }
        proof {
            assert(all.take(names.len() as int) =~= all);
        }
        r
    }

    /// The file that `load_env` reads for these arguments: the named file,
    /// or `grubenv`, under the prefix.
    pub fn load_env_file(&self, args: Vec<String>) -> (r: Result<String, GrubEnvironmentError>)
        ensures
            match block_parsed(args.deep_view(), true) {
                None => r matches Err(GrubEnvironmentError::InvalidArgs),
                Some(scan) => if self@.contains_key("prefix"@) {
                    r matches Ok(path) && path@ == join_path(self@["prefix"@], block_file(scan))
                } else {
                    r matches Err(GrubEnvironmentError::MissingEnvironmentVariable)
                },
            },
    {
        match LoadEnvArgs::try_parse_from(args) {
            Err(_) => Err(GrubEnvironmentError::InvalidArgs),
            Ok(parsed) => match self.get_env("prefix") {
                None => Err(GrubEnvironmentError::MissingEnvironmentVariable),
                Some(prefix) => Ok(path_join(prefix.as_str(), parsed.file.as_str())),
            },
        }
    }

    /// `load_env`: sets the variables that the text of an environment block
    /// holds; with a whitelist, only those that it names.
    ///
    /// `contents` is the text of the file that [`Self::load_env_file`]
    /// names, or the message of the failure to read it.
    pub fn run_load_env(&mut self, args: Vec<String>, contents: Result<String, String>) -> (r:
        Result<(), GrubEnvironmentError>)
        ensures
            match block_parsed(args.deep_view(), true) {
                None => (r matches Err(GrubEnvironmentError::InvalidArgs)) && final(self)@
                    == old(self)@,
                Some(scan) => if !old(self)@.contains_key("prefix"@) {
                    (r matches Err(GrubEnvironmentError::MissingEnvironmentVariable))
                        && final(self)@ == old(self)@
                } else {
                    match contents {
                        Err(message) => (r matches Err(GrubEnvironmentError::Io(m)) && m@
                            == message@) && final(self)@ == old(self)@,
                        Ok(text) => r is Ok && final(self)@ == merged(
                            old(self)@,
                            loaded_env(text@, scan.names),
                        ),
                    }
                },
            },
    {
        match LoadEnvArgs::try_parse_from(args) {
            Err(_) => Err(GrubEnvironmentError::InvalidArgs),
            Ok(parsed) => {
                if self.get_env("prefix").is_none() {
                    return Err(GrubEnvironmentError::MissingEnvironmentVariable);
                }
                match contents {
                    Err(message) => Err(GrubEnvironmentError::Io(message)),
                    Ok(text) => {
                        let env = load_env(text.as_str(), parsed.whitelisted_variables);
                        self.merge(env);
                        Ok(())
                    },
                }
            },
        }
    }

    /// The file that `save_env` rewrites for these arguments: the named
    /// file, or `grubenv`, under the prefix. At least one variable has to be
    /// named.
    pub fn save_env_file(&self, args: Vec<String>) -> (r: Result<String, GrubEnvironmentError>)
        ensures
            match block_parsed(args.deep_view(), false) {
                None => r matches Err(GrubEnvironmentError::InvalidArgs),
                Some(scan) => if scan.names.len() == 0 {
                    r matches Err(GrubEnvironmentError::InvalidArgs)
                } else if self@.contains_key("prefix"@) {
                    r matches Ok(path) && path@ == join_path(self@["prefix"@], block_file(scan))
                } else {
                    r matches Err(GrubEnvironmentError::MissingEnvironmentVariable)
                },
            },
    {
        match SaveEnvArgs::try_parse_from(args) {
            Err(_) => Err(GrubEnvironmentError::InvalidArgs),
            Ok(parsed) => {
                if parsed.variables.len() == 0 {
                    return Err(GrubEnvironmentError::InvalidArgs);
                }
                match self.get_env("prefix") {
                    None => Err(GrubEnvironmentError::MissingEnvironmentVariable),
                    Some(prefix) => Ok(path_join(prefix.as_str(), parsed.file.as_str())),
                }
            },
        }
    }

    /// `save_env`: builds the environment block that holds what the
    /// existing block holds, with the named variables that are set
    /// overwritten by their values of the environment; those that the block
    /// did not hold are added at its end. The caller writes the block that
    /// is returned to the file.
    ///
    /// `existing` is the text of the file that [`Self::save_env_file`]
    /// names, or the message of the failure to read it.
    pub fn run_save_env(&self, args: Vec<String>, existing: Result<String, String>) -> (r: Result<
        String,
        GrubEnvironmentError,
    >)
        ensures
            match block_parsed(args.deep_view(), false) {
                None => r matches Err(GrubEnvironmentError::InvalidArgs),
                Some(scan) => if scan.names.len() == 0 {
                    r matches Err(GrubEnvironmentError::InvalidArgs)
                } else if !self@.contains_key("prefix"@) {
                    r matches Err(GrubEnvironmentError::MissingEnvironmentVariable)
                } else {
                    match existing {
                        Err(message) => r matches Err(GrubEnvironmentError::Io(m)) && m@
                            == message@,
                        Ok(text) => match environment_block(
                            saved(loaded_env(text@, Seq::empty()), self@, scan.names),
                        ) {
                            Some(block) => r matches Ok(written) && written@ == block,
                            None => r matches Err(GrubEnvironmentError::EnvironmentBlock),
                        },
                    }
                },
            },
    {
        match SaveEnvArgs::try_parse_from(args) {
            Err(_) => Err(GrubEnvironmentError::InvalidArgs),
            Ok(parsed) => {
                if parsed.variables.len() == 0 {
                    return Err(GrubEnvironmentError::InvalidArgs);
                }
                if self.get_env("prefix").is_none() {
                    return Err(GrubEnvironmentError::MissingEnvironmentVariable);
                }
                match existing {
                    Err(message) => Err(GrubEnvironmentError::Io(message)),
                    Ok(text) => {
                        let all: Vec<String> = Vec::new();
                        assert(all.deep_view() =~= Seq::<Seq<char>>::empty());
                        let held = load_env(text.as_str(), all);
                        let envs = self.save(&held, &parsed.variables);
                        match grub_environment_block(envs) {
                            Ok(block) => Ok(block),
                            Err(_) => Err(GrubEnvironmentError::EnvironmentBlock),
                        }
                    },
                }
            },
        }
    }

    /// Plans a `search`: finds the device and says where it is, or is to
    /// be, mounted.
    ///
    /// `devices` are the block devices of the system with what was found on
    /// them, and `mounts` is the text of the mount table; either may be the
    /// message of a failure instead. A mount table that could not be read
    /// counts as one that does not show the device.
    pub fn search_plan(
        args: Vec<String>,
        devices: Result<Vec<ProbedDevice>, String>,
        mounts: Result<String, String>,
    ) -> (r: Result<SearchPlan, GrubEnvironmentError>)
        ensures
            plan_stands_for(
                r,
                searched(
                    args.deep_view(),
                    match devices {
                        Ok(list) => Some(probed(list@)),
                        Err(_) => None,
                    },
                    match mounts {
                        Ok(table) => Some(table@),
                        Err(_) => None,
                    },
                ),
            ),
            match (r, devices) {
                (Err(GrubEnvironmentError::Io(m)), Err(message)) => m@ == message@,
                _ => true,
            },
    {
        let parsed = match SearchArgs::try_parse_from(args) {
            Ok(parsed) => parsed,
            Err(_) => {
                return Err(GrubEnvironmentError::InvalidArgs);
            },
        };
        if !parsed.file && !parsed.fs_uuid && !parsed.label {
            return Err(GrubEnvironmentError::InvalidArgs);
        }
        let list = match devices {
            Ok(list) => list,
            Err(message) => {
                return Err(GrubEnvironmentError::Io(message));
            },
        };
        let mut k: usize = 0;
        while k < list.len() && !matches_device(&parsed, &list[k])
            invariant
                k <= list.len(),
                first_match(parsed@, probed(list@), 0) == first_match(
                    parsed@,
                    probed(list@),
                    k as int,
                ),
            decreases list.len() - k,
        {
            k += 1;
        }
        if k >= list.len() {
            return Err(GrubEnvironmentError::Io("file not found".to_string()));
        }
        let device = &list[k];
        assert(probed(list@)[k as int] == device@);
        let existing = match &mounts {
            Ok(table) => mountinfo_from_source(table.as_str(), device.path.as_str()),
            Err(_) => None,
        };
        match existing {
            Some(mountpoint) => Ok(SearchPlan { var: parsed.set, mountpoint, mount: None }),
            None => match &device.fs_type {
                None => Err(GrubEnvironmentError::Io("unknown file system".to_string())),
                Some(fs) => {
                    let target = mountpoint_for(device.path.as_str());
                    let request = MountRequest {
                        source: device.path.clone(),
                        target: target.clone(),
                        fstype: fs.mount_type().to_string(),
                    };
                    Ok(SearchPlan { var: parsed.set, mountpoint: target, mount: Some(request) })
                },
            },
        }
    }

    /// `search`: stores the mount point of the device that was found in the
    /// variable that `--set` names.
    ///
    /// `mounted` is the outcome of the mount that the plan asked for. If the
    /// plan asked for none, it is not looked at; if the mount failed, the
    /// command fails and sets nothing.
    pub fn run_search(&mut self, plan: SearchPlan, mounted: Result<(), String>) -> (r: Result<
        (),
        GrubEnvironmentError,
    >)
        ensures
            match (plan.mount, mounted) {
                (Some(_), Err(message)) => (r matches Err(GrubEnvironmentError::Nix(m)) && m@
                    == message@) && final(self)@ == old(self)@,
                _ => r is Ok && final(self)@ == old(self)@.insert(plan.var@, plan.mountpoint@),
            },
    {
        if plan.mount.is_some() {
            match mounted {
                Err(message) => {
                    return Err(GrubEnvironmentError::Nix(message));
                },
                Ok(_) => {},
            }
        }
        self.set_env(plan.var, Some(plan.mountpoint));
        Ok(())
    }

    /// Records how the last command ended: stores the exit code that stands
    /// for the result in `?` and returns it.
    pub fn complete(&mut self, result: &Result<(), GrubEnvironmentError>) -> (code: u8)
        ensures
            code == exit_code_of(*result),
            code <= 2,
            final(self)@ == old(self)@.insert("?"@, code_text(code)),
    {
        let code = exit_code(result);
        let text = if code == 0 {
            "0"
        } else if code == 1 {
            "1"
        } else {
            "2"
        };
        self.set_env("?".to_string(), Some(text.to_string()));
        code
    }

    /// Runs a command as far as the environment can run it alone.
    ///
    /// `initrd`, `linux` and `set` end at once, and so does a `test` that
    /// asks for no file; a command that is not known is passed over with
    /// exit code 0. A command that ends stores its exit code in `?`. A
    /// command that needs the system changes nothing yet, and the step says
    /// what it asks for; its arguments are those handed in, with the name of
    /// the command in front.
    pub fn run_command(&mut self, command: String, args_wo_command: Vec<String>) -> (step:
        CommandStep)
        ensures
            step_stands_for(
                step,
                stepped(old(self)@, seq![command@] + args_wo_command.deep_view()),
            ),
            final(self)@ == after_step(old(self)@, seq![command@] + args_wo_command.deep_view()),
            command@ == "test"@ && (args_wo_command.len() < 1 || args_wo_command.len() > 3)
                ==> step matches CommandStep::Exit(2),
            command@ == "false"@ ==> step matches CommandStep::Exit(1),
    {
        let args = with_name(&command, &args_wo_command);
        proof {
            reveal_strlit("test");
            reveal_strlit("initrd");
            reveal_strlit("linux");
            reveal_strlit("load_env");
            reveal_strlit("save_env");
            reveal_strlit("search");
            reveal_strlit("set");
            reveal_strlit("false");
            if command@ == "test"@ {
                assert("test"@.len() == 4);
                assert("initrd"@.len() == 6 && "linux"@.len() == 5 && "set"@.len() == 3);
                assert("load_env"@.len() == 8 && "save_env"@.len() == 8 && "search"@.len() == 6);
                assert("false"@.len() == 5);
                assert(command_named(command@) == Command::Test);
            }
            if command@ == "false"@ {
                assert("false"@.len() == 5 && "test"@.len() == 4);
                assert("initrd"@.len() == 6 && "linux"@.len() == 5 && "set"@.len() == 3);
                assert("load_env"@.len() == 8 && "save_env"@.len() == 8 && "search"@.len() == 6);
                assert("linux"@[0] == 'l');
                assert("false"@[0] == 'f');
                assert(command_named(command@) == Command::False);
            }
        }
        match command_of(command.as_str()) {
            Command::Initrd => {
                let result = self.run_initrd(args);
                CommandStep::Exit(self.complete(&result))
            },
            Command::Linux => {
                let result = self.run_linux(args);
                CommandStep::Exit(self.complete(&result))
            },
            Command::Assign => {
                let result = self.run_set(args);
                CommandStep::Exit(self.complete(&result))
            },
            Command::Test => {
                let paths = test_operands(&args);
                if paths.len() == 0 {
                    let none: Vec<Result<FileStatus, String>> = Vec::new();
                    let result = self.run_test(args, &none);
                    assert(none@ =~= Seq::<Result<FileStatus, String>>::empty());
                    CommandStep::Exit(self.complete(&result))
                } else {
                    CommandStep::Stat(paths)
                }
            },
            Command::LoadEnv => match self.load_env_file(args) {
                Ok(path) => CommandStep::Load(path),
                Err(e) => {
                    let result: Result<(), GrubEnvironmentError> = Err(e);
                    CommandStep::Exit(self.complete(&result))
                },
            },
            Command::SaveEnv => match self.save_env_file(args) {
                Ok(path) => CommandStep::Save(path),
                Err(e) => {
                    let result: Result<(), GrubEnvironmentError> = Err(e);
                    CommandStep::Exit(self.complete(&result))
                },
            },
            Command::Search => match SearchArgs::try_parse_from(args) {
                Ok(parsed) => {
                    if parsed.file || parsed.fs_uuid || parsed.label {
                        CommandStep::Search
                    } else {
                        let result: Result<(), GrubEnvironmentError> = Err(
                            GrubEnvironmentError::InvalidArgs,
                        );
                        CommandStep::Exit(self.complete(&result))
                    }
                },
                Err(e) => {
                    let result: Result<(), GrubEnvironmentError> = Err(e);
                    CommandStep::Exit(self.complete(&result))
                },
            },
            Command::False => {
                let result: Result<(), GrubEnvironmentError> = Err(GrubEnvironmentError::False);
                CommandStep::Exit(self.complete(&result))
            },
            Command::Unknown => {
                let result: Result<(), GrubEnvironmentError> = Err(
                    GrubEnvironmentError::NotImplemented,
                );
                CommandStep::Exit(self.complete(&result))
            },
        }
    }
}

/// The exit code that stands for a verdict of `test`.
pub open spec fn verdict_code(verdict: Verdict) -> u8 {
    match verdict {
        Verdict::Holds => 0,
        Verdict::Fails => 1,
        _ => 2,
    }
}

/// What a command comes to without the system.
pub enum Stepped {
    /// It ends with this exit code and leaves these variables, `?` not yet
    /// counted.
    Ended(u8, Map<Seq<char>, Seq<char>>),
    /// `test` asks for the status of these paths.
    Stat(Seq<Seq<char>>),
    /// `load_env` asks for the text of this file.
    Load(Seq<char>),
    /// `save_env` asks for the text of this file.
    Save(Seq<char>),
    /// `search` asks for the devices and the mount table.
    Search,
}

/// What the command that `args` begins with comes to in the environment
/// `env`, without the system.
pub open spec fn stepped(env: Map<Seq<char>, Seq<char>>, args: Seq<Seq<char>>) -> Stepped {
    match command_named(args[0]) {
        Command::Initrd => if args.len() >= 2 {
            Stepped::Ended(0, env.insert("initrd"@, strip_parens(args[1])))
        } else {
            Stepped::Ended(2, env)
        },
        Command::Linux => if args.len() >= 2 {
            Stepped::Ended(
                0,
                env.insert("linux"@, strip_parens(args[1])).insert(
                    "linux_cmdline"@,
                    joined(args.skip(2)),
                ),
            )
        } else {
            Stepped::Ended(2, env)
        },
        Command::Assign => match set_assignment(args) {
            Some((name, value)) => Stepped::Ended(0, assigned(env, name, value)),
            None => Stepped::Ended(2, env),
        },
        Command::Test => if test_files(args).len() == 0 {
            Stepped::Ended(verdict_code(test_verdict(args, Seq::empty())), env)
        } else {
            Stepped::Stat(test_files(args))
        },
        Command::LoadEnv => match block_parsed(args, true) {
            Some(scan) => if env.contains_key("prefix"@) {
                Stepped::Load(join_path(env["prefix"@], block_file(scan)))
            } else {
                Stepped::Ended(2, env)
            },
            None => Stepped::Ended(2, env),
        },
        Command::SaveEnv => match block_parsed(args, false) {
            Some(scan) => if scan.names.len() > 0 && env.contains_key("prefix"@) {
                Stepped::Save(join_path(env["prefix"@], block_file(scan)))
            } else {
                Stepped::Ended(2, env)
            },
            None => Stepped::Ended(2, env),
        },
        Command::Search => match search_parsed(args) {
            Some(parsed) => if parsed.file || parsed.fs_uuid || parsed.label {
                Stepped::Search
            } else {
                Stepped::Ended(2, env)
            },
            None => Stepped::Ended(2, env),
        },
        Command::False => Stepped::Ended(1, env),
        Command::Unknown => Stepped::Ended(0, env),
    }
}

/// The environment after a command was run as far as it goes without the
/// system: a command that ended has left its exit code in `?`, one that
/// waits has changed nothing.
pub open spec fn after_step(env: Map<Seq<char>, Seq<char>>, args: Seq<Seq<char>>) -> Map<
    Seq<char>,
    Seq<char>,
> {
    match stepped(env, args) {
        Stepped::Ended(code, left) => left.insert("?"@, code_text(code)),
        _ => env,
    }
}

/// After a command that has ended, `?` holds the decimal form of its exit
/// code, which is 0, 1 or 2.
pub proof fn lemma_status_is_kept(env: Map<Seq<char>, Seq<char>>, args: Seq<Seq<char>>)
    ensures
        stepped(env, args) matches Stepped::Ended(code, _) ==> code <= 2 && after_step(
            env,
            args,
        ).contains_key("?"@) && after_step(env, args)["?"@] == code_text(code) && (code == 0
            ==> code_text(code) == "0"@) && (code == 1 ==> code_text(code) == "1"@) && (code == 2
            ==> code_text(code) == "2"@),
{
}

/// Whether a step is the one that stands for what a command comes to.
pub open spec fn step_stands_for(step: CommandStep, stepped: Stepped) -> bool {
    match stepped {
        Stepped::Ended(code, _) => step matches CommandStep::Exit(c) && c == code,
        Stepped::Stat(paths) => step matches CommandStep::Stat(p) && p.deep_view() == paths,
        Stepped::Load(path) => step matches CommandStep::Load(p) && p@ == path,
        Stepped::Save(path) => step matches CommandStep::Save(p) && p@ == path,
        Stepped::Search => step is Search,
    }
}

/// Whether two steps say the same: both have ended with one exit code, or
/// both ask the same of the system.
pub open spec fn same_step(a: CommandStep, b: CommandStep) -> bool {
    match a {
        CommandStep::Exit(code) => b matches CommandStep::Exit(c) && c == code,
        CommandStep::Stat(paths) => b matches CommandStep::Stat(p) && p.deep_view()
            == paths.deep_view(),
        CommandStep::Load(path) => b matches CommandStep::Load(p) && p@ == path@,
        CommandStep::Save(path) => b matches CommandStep::Save(p) && p@ == path@,
        CommandStep::Search => b is Search,
    }
}

} // verus!
