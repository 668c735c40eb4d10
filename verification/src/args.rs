//! The argument grammar of the commands `search`, `load_env` and
//! `save_env`.
//!
//! Arguments are read as words: `--` ends the options, `--name` and
//! `--name=value` are long options, `-x` is a short option, and everything
//! else, a single `-` included, is an operand. After `--` every word is an
//! operand.

use crate::error::GrubEnvironmentError;
use crate::text::{chars_of, find, find_char, same_text, string_of};
use vstd::prelude::*;

verus! {

/// One argument, read as a word of the grammar.
pub enum Word {
    /// `--`: what follows are operands.
    Escape,
    /// `--name` or `--name=value`.
    Long(Seq<char>, Option<Seq<char>>),
    /// `-x`: the text behind the hyphen.
    Short(Seq<char>),
    /// Anything else.
    Operand(Seq<char>),
}

/// The word that an argument is.
pub open spec fn word(a: Seq<char>) -> Word {
    if a.len() >= 2 && a[0] == '-' && a[1] == '-' {
        if a.len() == 2 {
            Word::Escape
        } else {
            let body = a.skip(2);
            let k = find(body, '=');
            if 0 <= k < body.len() {
                Word::Long(body.take(k), Some(body.skip(k + 1)))
            } else {
                Word::Long(body, None)
            }
        }
    } else if a.len() >= 2 && a[0] == '-' {
        Word::Short(a.skip(1))
    } else {
        Word::Operand(a)
    }
}

/// An argument read as a word, in executable form.
pub enum Token {
    Escape,
    Long(String, Option<String>),
    Short(String),
    Operand(String),
}

impl View for Token {
    type V = Word;

    open spec fn view(&self) -> Word {
        match self {
            Token::Escape => Word::Escape,
            Token::Long(name, Some(value)) => Word::Long(name@, Some(value@)),
            Token::Long(name, None) => Word::Long(name@, None),
            Token::Short(cluster) => Word::Short(cluster@),
            Token::Operand(text) => Word::Operand(text@),
        }
    }
}

/// Reads an argument as a word.
pub fn classify(arg: &str) -> (r: Token)
    ensures
        r@ == word(arg@),
{
    let v = chars_of(arg);
    let n = v.len();
    if n >= 2 && v[0] == '-' && v[1] == '-' {
        if n == 2 {
            Token::Escape
        } else {
            let k = find_char(&v, 2, n, '=');
            proof {
                assert(v@.skip(2) =~= v@.subrange(2, n as int));
            }
            let name = string_of(&v, 2, k);
            if k < n {
                let value = string_of(&v, k + 1, n);
                proof {
                    assert(v@.skip(2).take(k - 2) =~= name@);
                    assert(v@.skip(2).skip(k - 2 + 1) =~= value@);
                }
                Token::Long(name, Some(value))
            } else {
                proof {
                    assert(v@.skip(2) =~= name@);
                }
                Token::Long(name, None)
            }
        }
    } else if n >= 2 && v[0] == '-' {
        let cluster = string_of(&v, 1, n);
        proof {
            assert(v@.skip(1) =~= cluster@);
        }
        Token::Short(cluster)
    } else {
        let text = string_of(&v, 0, n);
        proof {
            assert(v@ =~= text@);
        }
        Token::Operand(text)
    }
}

/// Whether an argument can be the value of an option that stands before
/// it: it does not begin with a hyphen.
pub open spec fn is_value(a: Seq<char>) -> bool {
    a.len() == 0 || a[0] != '-'
}

/// Executable form of [`is_value`].
pub fn can_be_value(arg: &str) -> (r: bool)
    ensures
        r == is_value(arg@),
{
    let v = chars_of(arg);
    v.len() == 0 || v[0] != '-'
}

/// What `search` was asked for.
///
/// <https://www.gnu.org/software/grub/manual/grub/grub.html#search>
#[derive(Debug, PartialEq, Eq)]
pub struct SearchArgs {
    /// Search by the path of the device (`-f`, `--file`).
    pub file: bool,
    /// Search by the label of the file system (`-l`, `--label`).
    pub label: bool,
    /// Search by the UUID of the file system (`-u`, `--fs-uuid`).
    pub fs_uuid: bool,
    /// `--no-floppy`.
    pub no_floppy: bool,
    /// The variable that receives the mount point (`--set`).
    pub set: String,
    /// What to search for.
    pub name: String,
}

/// The arguments of `search` as far as they are read.
pub struct SearchScan {
    pub file: bool,
    pub label: bool,
    pub fs_uuid: bool,
    pub no_floppy: bool,
    pub set: Option<Seq<char>>,
    pub name: Option<Seq<char>>,
    /// `--` was passed.
    pub escaped: bool,
}

/// The mathematical form of [`SearchArgs`].
pub struct SearchModel {
    pub file: bool,
    pub label: bool,
    pub fs_uuid: bool,
    pub no_floppy: bool,
    pub set: Seq<char>,
    pub name: Seq<char>,
}

impl View for SearchArgs {
    type V = SearchModel;

    open spec fn view(&self) -> SearchModel {
        SearchModel {
            file: self.file,
            label: self.label,
            fs_uuid: self.fs_uuid,
            no_floppy: self.no_floppy,
            set: self.set@,
            name: self.name@,
        }
    }
}

/// Nothing read yet.
pub open spec fn search_start() -> SearchScan {
    SearchScan {
        file: false,
        label: false,
        fs_uuid: false,
        no_floppy: false,
        set: None,
        name: None,
        escaped: false,
    }
}

/// The scan after one of the flags of `search`, given by its long name;
/// none if the name is no flag or the flag was given before.
pub open spec fn search_flag(scan: SearchScan, name: Seq<char>) -> Option<SearchScan> {
    if name == "file"@ && !scan.file {
        Some(SearchScan { file: true, ..scan })
    } else if name == "label"@ && !scan.label {
        Some(SearchScan { label: true, ..scan })
    } else if name == "fs-uuid"@ && !scan.fs_uuid {
        Some(SearchScan { fs_uuid: true, ..scan })
    } else if name == "no-floppy"@ && !scan.no_floppy {
        Some(SearchScan { no_floppy: true, ..scan })
    } else {
        None
    }
}

/// The long name of a short flag of `search`.
pub open spec fn search_short(cluster: Seq<char>) -> Option<Seq<char>> {
    if cluster == "f"@ {
        Some("file"@)
    } else if cluster == "l"@ {
        Some("label"@)
    } else if cluster == "u"@ {
        Some("fs-uuid"@)
    } else {
        None
    }
}

/// The scan after an operand: it is what to search for, and there is only
/// one.
pub open spec fn search_operand(scan: SearchScan, text: Seq<char>) -> Option<SearchScan> {
    if scan.name is Some {
        None
    } else {
        Some(SearchScan { name: Some(text), ..scan })
    }
}

/// The scan after the value of `--set`: it is given only once.
pub open spec fn search_set(scan: SearchScan, value: Seq<char>) -> Option<SearchScan> {
    if scan.set is Some {
        None
    } else {
        Some(SearchScan { set: Some(value), ..scan })
    }
}

/// Reads the arguments of `search` from index `i` on.
pub open spec fn search_scan(args: Seq<Seq<char>>, i: int, scan: SearchScan) -> Option<
    SearchScan,
>
    decreases args.len() - i,
{
    if i < 0 || i >= args.len() {
        Some(scan)
    } else if scan.escaped {
        match search_operand(scan, args[i]) {
            Some(next) => search_scan(args, i + 1, next),
            None => None,
        }
    } else {
        match word(args[i]) {
            Word::Escape => search_scan(args, i + 1, SearchScan { escaped: true, ..scan }),
            Word::Operand(text) => match search_operand(scan, text) {
                Some(next) => search_scan(args, i + 1, next),
                None => None,
            },
            Word::Short(cluster) => match search_short(cluster) {
                Some(name) => match search_flag(scan, name) {
                    Some(next) => search_scan(args, i + 1, next),
                    None => None,
                },
                None => None,
            },
            Word::Long(name, Some(value)) => if name == "set"@ {
                match search_set(scan, value) {
                    Some(next) => search_scan(args, i + 1, next),
                    None => None,
                }
            } else {
                None
            },
            Word::Long(name, None) => if name == "set"@ {
                if i + 1 < args.len() && is_value(args[i + 1]) {
                    match search_set(scan, args[i + 1]) {
                        Some(next) => search_scan(args, i + 2, next),
                        None => None,
                    }
                } else {
                    None
                }
            } else {
                match search_flag(scan, name) {
                    Some(next) => search_scan(args, i + 1, next),
                    None => None,
                }
            },
        }
    }
}

/// How many of the three criteria are chosen.
pub open spec fn criteria(file: bool, label: bool, fs_uuid: bool) -> int {
    (if file {
        1int
    } else {
        0int
    }) + (if label {
        1int
    } else {
        0int
    }) + (if fs_uuid {
        1int
    } else {
        0int
    })
}

/// What the arguments of `search`, the first of which is the name of the
/// command, ask for.
///
/// `-f`/`--file`, `-l`/`--label` and `-u`/`--fs-uuid` exclude one another;
/// `--no-floppy` is accepted; `--set=VAR` or `--set VAR` is required, and so
/// is one operand. No option is given twice. Arguments that do not follow
/// this grammar ask for nothing.
pub open spec fn search_parsed(args: Seq<Seq<char>>) -> Option<SearchModel> {
    if args.len() == 0 {
        None
    } else {
        match search_scan(args, 1, search_start()) {
            Some(scan) => if criteria(scan.file, scan.label, scan.fs_uuid) <= 1 && scan.set
                is Some && scan.name is Some {
                Some(
                    SearchModel {
                        file: scan.file,
                        label: scan.label,
                        fs_uuid: scan.fs_uuid,
                        no_floppy: scan.no_floppy,
                        set: scan.set->Some_0,
                        name: scan.name->Some_0,
                    },
                )
            } else {
                None
            },
            None => None,
        }
    }
}

/// The arguments of `search` as far as they are read, in executable form.
struct SearchState {
    file: bool,
    label: bool,
    fs_uuid: bool,
    no_floppy: bool,
    set: Option<String>,
    name: Option<String>,
    escaped: bool,
}

impl View for SearchState {
    type V = SearchScan;

    closed spec fn view(&self) -> SearchScan {
        SearchScan {
            file: self.file,
            label: self.label,
            fs_uuid: self.fs_uuid,
            no_floppy: self.no_floppy,
            set: match self.set {
                Some(s) => Some(s@),
                None => None,
            },
            name: match self.name {
                Some(s) => Some(s@),
                None => None,
            },
            escaped: self.escaped,
        }
    }
}

/// Executable form of [`search_flag`]. Returns whether the flag was taken.
fn take_search_flag(state: &mut SearchState, name: &str) -> (taken: bool)
    ensures
        match search_flag(old(state)@, name@) {
            Some(next) => taken && final(state)@ == next,
            None => !taken,
        },
{
    if same_text(name, "file") && !state.file {
        state.file = true;
        true
    } else if same_text(name, "label") && !state.label {
        state.label = true;
        true
    } else if same_text(name, "fs-uuid") && !state.fs_uuid {
        state.fs_uuid = true;
        true
    } else if same_text(name, "no-floppy") && !state.no_floppy {
        state.no_floppy = true;
        true
    } else {
        false
    }
}

/// Executable form of [`search_short`].
fn search_short_name(cluster: &str) -> (r: Option<&'static str>)
    ensures
        match search_short(cluster@) {
            Some(name) => r matches Some(found) && found@ == name,
            None => r is None,
        },
{
    if same_text(cluster, "f") {
        Some("file")
    } else if same_text(cluster, "l") {
        Some("label")
    } else if same_text(cluster, "u") {
        Some("fs-uuid")
    } else {
        None
    }
}

impl SearchArgs {
    /// Reads the arguments of `search`, the first of which is the name of
    /// the command.
    pub fn try_parse_from(args: Vec<String>) -> (r: Result<SearchArgs, GrubEnvironmentError>)
        ensures
            match search_parsed(args.deep_view()) {
                Some(parsed) => r matches Ok(found) && found@ == parsed,
                None => r matches Err(GrubEnvironmentError::InvalidArgs),
            },
    {
        if args.len() == 0 {
            return Err(GrubEnvironmentError::InvalidArgs);
        }
        let mut state = SearchState {
            file: false,
            label: false,
            fs_uuid: false,
            no_floppy: false,
            set: None,
            name: None,
            escaped: false,
        };
        let mut i: usize = 1;
        while i < args.len()
            invariant
                1 <= i <= args.len(),
                search_scan(args.deep_view(), 1, search_start()) == search_scan(
                    args.deep_view(),
                    i as int,
                    state@,
                ),
            decreases args.len() - i,
        {
            let ghost all = args.deep_view();
            assert(all[i as int] == args@[i as int]@);
            let token = if state.escaped {
                Token::Operand(args[i].clone())
            } else {
                classify(args[i].as_str())
            };
            match token {
                Token::Escape => {
                    state.escaped = true;
                    i += 1;
                },
                Token::Operand(text) => {
                    if state.name.is_some() {
                        return Err(GrubEnvironmentError::InvalidArgs);
                    }
                    state.name = Some(text);
                    i += 1;
                },
                Token::Short(cluster) => {
                    match search_short_name(cluster.as_str()) {
                        None => {
                            return Err(GrubEnvironmentError::InvalidArgs);
                        },
                        Some(name) => {
                            if !take_search_flag(&mut state, name) {
                                return Err(GrubEnvironmentError::InvalidArgs);
                            }
                            i += 1;
                        },
                    }
                },
                Token::Long(name, given) => {
                    if same_text(name.as_str(), "set") {
                        if state.set.is_some() {
                            return Err(GrubEnvironmentError::InvalidArgs);
                        }
                        match given {
                            Some(value) => {
                                state.set = Some(value);
                                i += 1;
                            },
                            None => {
                                if i + 1 < args.len() && can_be_value(args[i + 1].as_str()) {
                                    assert(all[i + 1] == args@[i + 1]@);
                                    state.set = Some(args[i + 1].clone());
                                    i += 2;
                                } else {
                                    return Err(GrubEnvironmentError::InvalidArgs);
                                }
                            },
                        }
                    } else {
                        if given.is_some() {
                            return Err(GrubEnvironmentError::InvalidArgs);
                        }
                        if !take_search_flag(&mut state, name.as_str()) {
                            return Err(GrubEnvironmentError::InvalidArgs);
                        }
                        i += 1;
                    }
                },
            }
        }
        let chosen: u8 = (if state.file {
            1u8
        } else {
            0u8
        }) + (if state.label {
            1u8
        } else {
            0u8
        }) + (if state.fs_uuid {
            1u8
        } else {
            0u8
        });
        if chosen > 1 {
            return Err(GrubEnvironmentError::InvalidArgs);
        }
        match (state.set, state.name) {
            (Some(set), Some(name)) => Ok(
                SearchArgs {
                    file: state.file,
                    label: state.label,
                    fs_uuid: state.fs_uuid,
                    no_floppy: state.no_floppy,
                    set,
                    name,
                },
            ),
            _ => Err(GrubEnvironmentError::InvalidArgs),
        }
    }
}

/// What `load_env` was asked for.
#[derive(Debug, PartialEq, Eq)]
pub struct LoadEnvArgs {
    /// The environment block to read, relative to the prefix (`--file`).
    pub file: String,
    /// `--skip-sig`.
    pub skip_sig: bool,
    /// The variables to load; all of them if none is named.
    pub whitelisted_variables: Vec<String>,
}

/// What `save_env` was asked for.
#[derive(Debug, PartialEq, Eq)]
pub struct SaveEnvArgs {
    /// The environment block to rewrite, relative to the prefix (`--file`).
    pub file: String,
    /// The variables to save.
    pub variables: Vec<String>,
}

/// The arguments of `load_env` or `save_env` as far as they are read.
pub struct BlockScan {
    pub file: Option<Seq<char>>,
    pub skip_sig: bool,
    pub names: Seq<Seq<char>>,
    /// `--` was passed.
    pub escaped: bool,
}

/// Nothing read yet.
pub open spec fn block_start() -> BlockScan {
    BlockScan { file: None, skip_sig: false, names: Seq::empty(), escaped: false }
}

/// The scan after an operand: one more variable name.
pub open spec fn block_operand(scan: BlockScan, text: Seq<char>) -> BlockScan {
    BlockScan { names: scan.names.push(text), ..scan }
}

/// Reads the arguments of `load_env` or `save_env` from index `i` on.
/// `--file=FILE` or `--file FILE` may be given once; `--skip-sig` may be
/// given once where `signed` allows it; there are no short options.
pub open spec fn block_scan(args: Seq<Seq<char>>, i: int, scan: BlockScan, signed: bool) -> Option<
    BlockScan,
>
    decreases args.len() - i,
{
    if i < 0 || i >= args.len() {
        Some(scan)
    } else if scan.escaped {
        block_scan(args, i + 1, block_operand(scan, args[i]), signed)
    } else {
        match word(args[i]) {
            Word::Escape => block_scan(args, i + 1, BlockScan { escaped: true, ..scan }, signed),
            Word::Operand(text) => block_scan(args, i + 1, block_operand(scan, text), signed),
            Word::Short(_) => None,
            Word::Long(name, Some(value)) => if name == "file"@ && scan.file is None {
                block_scan(args, i + 1, BlockScan { file: Some(value), ..scan }, signed)
            } else {
                None
            },
            Word::Long(name, None) => if name == "file"@ {
                if scan.file is None && i + 1 < args.len() && is_value(args[i + 1]) {
                    block_scan(args, i + 2, BlockScan { file: Some(args[i + 1]), ..scan }, signed)
                } else {
                    None
                }
            } else if name == "skip-sig"@ && signed && !scan.skip_sig {
                block_scan(args, i + 1, BlockScan { skip_sig: true, ..scan }, signed)
            } else {
                None
            },
        }
    }
}

/// What the arguments of `load_env` or `save_env`, the first of which is
/// the name of the command, ask for; none if they do not follow the
/// grammar.
pub open spec fn block_parsed(args: Seq<Seq<char>>, signed: bool) -> Option<BlockScan> {
    if args.len() == 0 {
        None
    } else {
        block_scan(args, 1, block_start(), signed)
    }
}

/// The file that a scan names: `grubenv` unless `--file` says otherwise.
pub open spec fn block_file(scan: BlockScan) -> Seq<char> {
    match scan.file {
        Some(file) => file,
        None => "grubenv"@,
    }
}

/// The arguments of `load_env` or `save_env` as far as they are read, in
/// executable form.
struct BlockState {
    file: Option<String>,
    skip_sig: bool,
    names: Vec<String>,
    escaped: bool,
}

impl View for BlockState {
    type V = BlockScan;

    closed spec fn view(&self) -> BlockScan {
        BlockScan {
            file: match self.file {
                Some(s) => Some(s@),
                None => None,
            },
            skip_sig: self.skip_sig,
            names: self.names.deep_view(),
            escaped: self.escaped,
        }
    }
}

/// Reads the arguments of `load_env` or `save_env`.
fn scan_block_args(args: &Vec<String>, signed: bool) -> (r: Option<BlockState>)
    ensures
        match block_parsed(args.deep_view(), signed) {
            Some(scan) => r matches Some(state) && state@ == scan,
            None => r is None,
        },
{
    if args.len() == 0 {
        return None;
    }
    let mut state = BlockState { file: None, skip_sig: false, names: Vec::new(), escaped: false };
    proof {
        assert(state.names.deep_view() =~= Seq::<Seq<char>>::empty());
    }
    let mut i: usize = 1;
    while i < args.len()
        invariant
            1 <= i <= args.len(),
            block_scan(args.deep_view(), 1, block_start(), signed) == block_scan(
                args.deep_view(),
                i as int,
                state@,
                signed,
            ),
        decreases args.len() - i,
    {
        let ghost all = args.deep_view();
        let ghost names = state.names.deep_view();
        assert(all[i as int] == args@[i as int]@);
        let token = if state.escaped {
            Token::Operand(args[i].clone())
        } else {
            classify(args[i].as_str())
        };
        match token {
            Token::Escape => {
                state.escaped = true;
                i += 1;
            },
            Token::Operand(text) => {
                state.names.push(text);
                assert(state.names.deep_view() =~= names.push(text@));
                i += 1;
            },
            Token::Short(_) => {
                return None;
            },
            Token::Long(name, given) => {
                if same_text(name.as_str(), "file") {
                    if state.file.is_some() {
                        return None;
                    }
                    match given {
                        Some(value) => {
                            state.file = Some(value);
                            i += 1;
                        },
                        None => {
                            if i + 1 < args.len() && can_be_value(args[i + 1].as_str()) {
                                assert(all[i + 1] == args@[i + 1]@);
                                state.file = Some(args[i + 1].clone());
                                i += 2;
                            } else {
                                return None;
                            }
                        },
                    }
                } else if given.is_none() && same_text(name.as_str(), "skip-sig") && signed
                    && !state.skip_sig {
                    state.skip_sig = true;
                    i += 1;
                } else {
                    return None;
                }
            },
        }
    }
    Some(state)
}

impl LoadEnvArgs {
    /// Reads the arguments of `load_env`, the first of which is the name of
    /// the command: `[--file FILE] [--skip-sig] [VARIABLE ...]`.
    pub fn try_parse_from(args: Vec<String>) -> (r: Result<LoadEnvArgs, GrubEnvironmentError>)
        ensures
            match block_parsed(args.deep_view(), true) {
                Some(scan) => r matches Ok(found) && found.file@ == block_file(scan)
                    && found.skip_sig == scan.skip_sig && found.whitelisted_variables.deep_view()
                    == scan.names,
                None => r matches Err(GrubEnvironmentError::InvalidArgs),
            },
    {
        match scan_block_args(&args, true) {
            None => Err(GrubEnvironmentError::InvalidArgs),
            Some(state) => {
                let file = match state.file {
                    Some(file) => file,
                    None => "grubenv".to_string(),
                };
                Ok(
                    LoadEnvArgs {
                        file,
                        skip_sig: state.skip_sig,
                        whitelisted_variables: state.names,
                    },
                )
            },
        }
    }
}

impl SaveEnvArgs {
    /// Reads the arguments of `save_env`, the first of which is the name of
    /// the command: `[--file FILE] [VARIABLE ...]`.
    pub fn try_parse_from(args: Vec<String>) -> (r: Result<SaveEnvArgs, GrubEnvironmentError>)
        ensures
            match block_parsed(args.deep_view(), false) {
                Some(scan) => r matches Ok(found) && found.file@ == block_file(scan)
                    && found.variables.deep_view() == scan.names,
                None => r matches Err(GrubEnvironmentError::InvalidArgs),
            },
    {
        match scan_block_args(&args, false) {
            None => Err(GrubEnvironmentError::InvalidArgs),
            Some(state) => {
                let file = match state.file {
                    Some(file) => file,
                    None => "grubenv".to_string(),
                };
                Ok(SaveEnvArgs { file, variables: state.names })
            },
        }
    }
}

} // verus!
