//! The boot entries that are written for NixOS: the text of an entry, the
//! name of its file, and the names under which kernels are kept on the EFI
//! system partition.

use crate::environment::joined;
use crate::predicate::{parse_int, parse_integer};
use crate::syslinux::trimmed;
use crate::text::{chars_of, push_char, string_of};
use vstd::prelude::*;
use vstd::string::*;

verus! {

/// The digit that stands for a number below ten.
pub open spec fn digit(n: nat) -> char {
    (48 + n) as u8 as char
}

/// A number in decimal digits.
pub open spec fn decimal(n: nat) -> Seq<char>
    decreases n,
{
    if n < 10 {
        seq![digit(n)]
    } else {
        decimal(n / 10).push(digit(n % 10))
    }
}

/// Appends a number in decimal digits to a text.
pub fn push_decimal(text: &mut String, n: u32)
    ensures
        final(text)@ == old(text)@ + decimal(n as nat),
    decreases n,
{
    if n >= 10 {
        push_decimal(text, n / 10);
    }
    push_char(text, (48u8 + (n % 10) as u8) as char);
    proof {
        if n >= 10 {
            assert(text@ =~= old(text)@ + decimal((n / 10) as nat).push(digit((n % 10) as nat)));
        } else {
            assert(text@ =~= old(text)@ + seq![digit(n as nat)]);
        }
    }
}

/// What a generation of the system boots with.
#[derive(Debug, PartialEq, Eq)]
pub struct Generation {
    /// The label of the generation.
    pub label: String,
    /// The kernel on the EFI system partition, relative to its root.
    pub linux: String,
    /// The initial RAM disk on the EFI system partition, relative to its
    /// root.
    pub initrd: Option<String>,
    /// The program that the kernel starts.
    pub init: String,
    /// The parameters of the kernel.
    pub kernel_params: Vec<String>,
}

/// A line of a boot entry: a key and a value, or an empty line where there
/// is no value.
pub open spec fn entry_line(key: Seq<char>, value: Option<Seq<char>>) -> Seq<char> {
    match value {
        Some(v) => (key + v).push('\n'),
        None => seq!['\n'],
    }
}

/// The title of a boot entry; it names the specialisation in brackets.
pub open spec fn entry_title(specialisation: Option<Seq<char>>) -> Seq<char> {
    match specialisation {
        Some(name) => ("NixOS ("@ + name).push(')'),
        None => "NixOS"@,
    }
}

/// The options of a boot entry: the program to start and the parameters of
/// the kernel.
pub open spec fn entry_options(init: Seq<char>, params: Seq<Seq<char>>) -> Seq<char> {
    init.push(' ') + joined(params)
}

/// The text of a boot entry: title, version, kernel, initial RAM disk,
/// options and machine id, each on a line of its own. The lines of what is
/// missing are empty. The machine id is trimmed.
pub open spec fn entry_text(
    specialisation: Option<Seq<char>>,
    label: Seq<char>,
    linux: Seq<char>,
    initrd: Option<Seq<char>>,
    init: Seq<char>,
    params: Seq<Seq<char>>,
    machine_id: Option<Seq<char>>,
) -> Seq<char> {
    entry_line("title "@, Some(entry_title(specialisation))) + entry_line(
        "version "@,
        Some(label),
    ) + entry_line("linux /"@, Some(linux)) + entry_line("initrd /"@, initrd) + entry_line(
        "options init="@,
        Some(entry_options(init, params)),
    ) + entry_line(
        "machine-id "@,
        match machine_id {
            Some(id) => Some(trimmed(id)),
            None => None,
        },
    )
}

/// The view of an optional text.
pub open spec fn some_text(text: Option<&str>) -> Option<Seq<char>> {
    match text {
        Some(s) => Some(s@),
        None => None,
    }
}

/// Appends a line of a boot entry to a text.
fn push_line(text: &mut String, key: &str, value: Option<&str>)
    ensures
        final(text)@ == old(text)@ + entry_line(key@, some_text(value)),
{
    match value {
        Some(v) => {
            text.append(key);
            text.append(v);
            push_char(text, '\n');
            proof {
                assert(text@ =~= old(text)@ + (key@ + v@).push('\n'));
            }
        },
        None => {
            push_char(text, '\n');
            proof {
                assert(text@ =~= old(text)@ + seq!['\n']);
            }
        },
    }
}

/// Writes the text of the boot entry of a generation.
pub fn entry_contents(
    generation: &Generation,
    specialisation: Option<&str>,
    machine_id: Option<&str>,
) -> (text: String)
    ensures
        text@ == entry_text(
            some_text(specialisation),
            generation.label@,
            generation.linux@,
            crate::message::text_view(generation.initrd),
            generation.init@,
            generation.kernel_params.deep_view(),
            some_text(machine_id),
        ),
{
    let title = match specialisation {
        Some(name) => {
            let mut title = "NixOS (".to_string();
            title.append(name);
            push_char(&mut title, ')');
            title
        },
        None => "NixOS".to_string(),
    };
    let mut options = generation.init.clone();
    push_char(&mut options, ' ');
    let params = crate::environment::join_from(&generation.kernel_params, 0);
    proof {
        assert(generation.kernel_params.deep_view().skip(0)
            =~= generation.kernel_params.deep_view());
    }
    options.append(params.as_str());
    let id = match machine_id {
        Some(id) => {
            let v = chars_of(id);
            let (from, to) = crate::syslinux::trim_bounds(&v, 0, v.len());
            proof {
                assert(v@.subrange(0, v.len() as int) =~= v@);
            }
            Some(string_of(&v, from, to))
        },
        None => None,
    };
    let mut text = String::new();
    push_line(&mut text, "title ", Some(title.as_str()));
    proof {
        assert(text@ =~= entry_line("title "@, Some(title@)));
    }
    push_line(&mut text, "version ", Some(generation.label.as_str()));
    push_line(&mut text, "linux /", Some(generation.linux.as_str()));
    match &generation.initrd {
        Some(path) => push_line(&mut text, "initrd /", Some(path.as_str())),
        None => push_line(&mut text, "initrd /", None),
    }
    push_line(&mut text, "options init=", Some(options.as_str()));
    match &id {
        Some(trimmed_id) => push_line(&mut text, "machine-id ", Some(trimmed_id.as_str())),
        None => push_line(&mut text, "machine-id ", None),
    }
    text
}

/// The name of the file of a boot entry: the number of the generation, the
/// specialisation if there is one, and the number of tries that are left.
pub open spec fn entry_name(
    entry_number: u32,
    specialisation: Option<Seq<char>>,
    max_tries: u32,
) -> Seq<char> {
    match specialisation {
        Some(name) => ("nixos-generation-"@ + decimal(entry_number as nat) + "-specialisation-"@
            + name).push('+') + decimal(max_tries as nat) + ".conf"@,
        None => ("nixos-generation-"@ + decimal(entry_number as nat)).push('+') + decimal(
            max_tries as nat,
        ) + ".conf"@,
    }
}

/// Executable form of [`entry_name`].
pub fn entry_file_name(entry_number: u32, specialisation: Option<&str>, max_tries: u32) -> (name:
    String)
    ensures
        name@ == entry_name(entry_number, some_text(specialisation), max_tries),
{
    let mut name = "nixos-generation-".to_string();
    push_decimal(&mut name, entry_number);
    match specialisation {
        Some(s) => {
            name.append("-specialisation-");
            name.append(s);
        },
        None => {},
    }
    push_char(&mut name, '+');
    push_decimal(&mut name, max_tries);
    name.append(".conf");
    name
}

/// The pattern that the files of all entries of a generation match, in the
/// given directory.
pub open spec fn entry_glob(parent: Seq<char>, entry_number: u32) -> Seq<char> {
    parent + "/nixos-generation-"@ + decimal(entry_number as nat) + "*.conf"@
}

/// Executable form of [`entry_glob`].
pub fn entry_pattern(parent: &str, entry_number: u32) -> (pattern: String)
    ensures
        pattern@ == entry_glob(parent@, entry_number),
{
    let mut pattern = parent.to_string();
    pattern.append("/nixos-generation-");
    push_decimal(&mut pattern, entry_number);
    pattern.append("*.conf");
    pattern
}

/// The index at which the run of characters that ends at `i` starts: the
/// run of `/` if `slash` is set, of other characters if it is not.
pub open spec fn run_start(s: Seq<char>, i: int, slash: bool) -> int
    decreases i,
{
    if i <= 0 || i > s.len() {
        0
    } else if (s[i - 1] == '/') != slash {
        i
    } else {
        run_start(s, i - 1, slash)
    }
}

/// The bounds of the last component of the path `s[..end]`: the last run of
/// characters that are no `/`.
pub open spec fn last_component(s: Seq<char>, end: int) -> (int, int) {
    let to = run_start(s, end, true);
    (run_start(s, to, false), to)
}

/// Whether a text is a name that a file can have: it is not empty and is
/// neither `.` nor `..`.
pub open spec fn is_file_name(name: Seq<char>) -> bool {
    name.len() > 0 && !(name.len() == 1 && name[0] == '.') && !(name.len() == 2 && name[0] == '.'
        && name[1] == '.')
}

/// The name under which a file is kept on the EFI system partition,
/// relative to its root: under `EFI/nixos`, the name of the directory of
/// the file, a hyphen, and the name of the file. There is none if the path
/// has no two components that are names.
pub open spec fn efi_path(file: Seq<char>) -> Option<Seq<char>> {
    let (name_from, name_to) = last_component(file, file.len() as int);
    let (dir_from, dir_to) = last_component(file, name_from);
    if 0 <= dir_from <= dir_to <= name_from <= name_to <= file.len() && is_file_name(
        file.subrange(name_from, name_to),
    ) && is_file_name(file.subrange(dir_from, dir_to)) {
        Some(
            ("EFI/nixos/"@ + file.subrange(dir_from, dir_to)).push('-') + file.subrange(
                name_from,
                name_to,
            ),
        )
    } else {
        None
    }
}

/// Executable form of [`run_start`].
fn start_of_run(v: &Vec<char>, i: usize, slash: bool) -> (k: usize)
    requires
        i <= v.len(),
    ensures
        k <= i,
        k == run_start(v@, i as int, slash),
{
    let mut k: usize = i;
    while k > 0 && (v[k - 1] == '/') == slash
        invariant
            k <= i <= v.len(),
            run_start(v@, i as int, slash) == run_start(v@, k as int, slash),
        decreases k,
    {
        k -= 1;
    }
    k
}

/// Whether `v[from..to]` is a name that a file can have.
fn names_file(v: &Vec<char>, from: usize, to: usize) -> (r: bool)
    requires
        from <= to <= v.len(),
    ensures
        r == is_file_name(v@.subrange(from as int, to as int)),
{
    let n = to - from;
    if n == 0 {
        false
    } else if n == 1 {
        v[from] != '.'
    } else if n == 2 {
        !(v[from] == '.' && v[from + 1] == '.')
    } else {
        true
    }
}

/// Executable form of [`efi_path`].
pub fn efi_name(file: &str) -> (r: Option<String>)
    ensures
        match efi_path(file@) {
            Some(path) => r matches Some(found) && found@ == path,
            None => r is None,
        },
{
    let v = chars_of(file);
    let name_to = start_of_run(&v, v.len(), true);
    let name_from = start_of_run(&v, name_to, false);
    let dir_to = start_of_run(&v, name_from, true);
    let dir_from = start_of_run(&v, dir_to, false);
    if names_file(&v, name_from, name_to) && names_file(&v, dir_from, dir_to) {
        let mut path = "EFI/nixos/".to_string();
        let dir = string_of(&v, dir_from, dir_to);
        let name = string_of(&v, name_from, name_to);
        path.append(dir.as_str());
        push_char(&mut path, '-');
        path.append(name.as_str());
        Some(path)
    } else {
        None
    }
}

/// The number of the generation that the name of a profile link gives:
/// the number that stands between `system-` and `-link`. There is none if
/// the name is not of this form.
pub open spec fn generation_number(name: Seq<char>) -> Option<u32> {
    let front = "system-"@;
    let back = "-link"@;
    if name.len() >= front.len() + back.len() && name.take(front.len() as int) == front
        && name.skip(name.len() - back.len()) == back {
        let digits = name.subrange(front.len() as int, name.len() - back.len());
        match parse_int(digits) {
            Some(n) => if crate::predicate::all_digits(digits) && n <= u32::MAX {
                Some(n as u32)
            } else {
                None
            },
            None => None,
        }
    } else {
        None
    }
}

/// Whether `v[from..to]` is the given word.
fn is_text(v: &Vec<char>, from: usize, to: usize, word: &Vec<char>) -> (r: bool)
    requires
        from <= to <= v.len(),
    ensures
        r == (v@.subrange(from as int, to as int) == word@),
{
    let ghost part = v@.subrange(from as int, to as int);
    if to - from != word.len() {
        return false;
    }
    let mut k: usize = 0;
    while k < word.len()
        invariant
            k <= word.len(),
            from <= to <= v.len(),
            to - from == word.len(),
            part == v@.subrange(from as int, to as int),
            forall|j: int| 0 <= j < k ==> part[j] == word@[j],
        decreases word.len() - k,
    {
        assert(part[k as int] == v@[from + k]);
        if v[from + k] != word[k] {
            return false;
        }
        k += 1;
    }
    proof {
        assert(part =~= word@);
    }
    true
}

/// Executable form of [`generation_number`].
pub fn generation_of(name: &str) -> (r: Option<u32>)
    ensures
        r == generation_number(name@),
{
    let v = chars_of(name);
    let front = chars_of("system-");
    let back = chars_of("-link");
    let n = v.len();
    if front.len() > n || back.len() > n - front.len() {
        return None;
    }
    proof {
        assert(v@.take(front.len() as int) =~= v@.subrange(0, front.len() as int));
        assert(v@.skip(n - back.len()) =~= v@.subrange(n - back.len(), n as int));
    }
    if !is_text(&v, 0, front.len(), &front) || !is_text(&v, n - back.len(), n, &back) {
        return None;
    }
    let from = front.len();
    let to = n - back.len();
    let digits = string_of(&v, from, to);
    let d = chars_of(digits.as_str());
    let mut plain = true;
    let mut k: usize = 0;
    while k < d.len()
        invariant
            k <= d.len(),
            plain ==> forall|j: int| 0 <= j < k ==> crate::predicate::is_digit(#[trigger] d@[j]),
            !plain ==> !crate::predicate::all_digits(d@),
        decreases d.len() - k,
    {
        if !crate::predicate::is_digit_char(d[k]) {
            plain = false;
            assert(!crate::predicate::is_digit(d@[k as int]));
        }
        k += 1;
    }
    match parse_integer(digits.as_str()) {
        Some(value) => {
            if plain && value >= 0 && value <= u32::MAX as i64 {
                Some(value as u32)
            } else {
                proof {
                    if crate::predicate::all_digits(d@) {
                        crate::predicate::lemma_digits_value_nonnegative(d@);
                    }
                }
                None
            }
        },
        None => None,
    }
}

} // verus!
