//! The configuration of syslinux and extlinux: a text of directives, one
//! on each line, that names the kernels to boot.
//!
//! A line holds a keyword, which is read without regard to case, and an
//! argument, which is the rest of the line without the white space around
//! it. `LABEL` opens an entry; `MENU LABEL`, `LINUX`, `INITRD` and `APPEND`
//! describe the entry that was opened last; `DEFAULT` and `TIMEOUT` speak of
//! the whole menu. Every other line, `PROMPT` and comments included, is
//! passed over.

use crate::bootloader::{BootInfo, BootLoaderError};
use crate::commands::{join_path, path_join};
use crate::menu::{MenuEntry, MenuModel};
use crate::message::{entries_view, text_view, EntryModel, LinuxBootEntry};
use crate::predicate::{parse_int, parse_integer};
use crate::text::{
    chars_of, is_space, is_space_char, lemma_scan, lines, next_line, scan, string_of,
};
use vstd::prelude::*;
use vstd::string::*;

verus! {

/// One entry of the menu, as the configuration describes it.
#[derive(Debug, PartialEq, Eq)]
pub struct Label {
    /// The name that `LABEL` gives.
    pub name: String,
    /// The title that `MENU LABEL` gives.
    pub title: Option<String>,
    /// The kernel that `LINUX` names.
    pub linux: Option<String>,
    /// The initial RAM disk that `INITRD` names.
    pub initrd: Option<String>,
    /// The command line that `APPEND` gives.
    pub append: Option<String>,
}

/// The mathematical form of [`Label`].
pub struct LabelModel {
    pub name: Seq<char>,
    pub title: Option<Seq<char>>,
    pub linux: Option<Seq<char>>,
    pub initrd: Option<Seq<char>>,
    pub append: Option<Seq<char>>,
}

impl View for Label {
    type V = LabelModel;

    open spec fn view(&self) -> LabelModel {
        LabelModel {
            name: self.name@,
            title: text_view(self.title),
            linux: text_view(self.linux),
            initrd: text_view(self.initrd),
            append: text_view(self.append),
        }
    }
}

/// The views of a list of entries.
pub open spec fn labels_view(labels: Seq<Label>) -> Seq<LabelModel> {
    labels.map_values(|l: Label| l@)
}

/// What a configuration says.
#[derive(Debug, PartialEq, Eq)]
pub struct SyslinuxConfig {
    /// The name of the default entry.
    pub default: Option<String>,
    /// The timeout, in tenths of a second.
    pub timeout: Option<u64>,
    /// The entries, in the order of the configuration.
    pub labels: Vec<Label>,
}

/// The mathematical form of [`SyslinuxConfig`].
pub struct ConfigModel {
    pub default: Option<Seq<char>>,
    pub timeout: Option<u64>,
    pub labels: Seq<LabelModel>,
}

impl View for SyslinuxConfig {
    type V = ConfigModel;

    open spec fn view(&self) -> ConfigModel {
        ConfigModel {
            default: text_view(self.default),
            timeout: self.timeout,
            labels: labels_view(self.labels@),
        }
    }
}

/// A text without the white space at its end.
pub open spec fn trim_end(s: Seq<char>) -> Seq<char>
    decreases s.len(),
{
    if s.len() > 0 && is_space(s.last()) {
        trim_end(s.drop_last())
    } else {
        s
    }
}

/// A text without the white space at its start and at its end.
pub open spec fn trimmed(s: Seq<char>) -> Seq<char> {
    let t = trim_end(s);
    let start = scan(t, false, 0);
    if 0 <= start <= t.len() {
        t.skip(start)
    } else {
        t
    }
}

/// A letter of the Latin alphabet in upper case; any other character as it
/// is.
pub open spec fn upper(c: char) -> char {
    if 'a' <= c <= 'z' {
        ((c as u32 - 32) as u8) as char
    } else {
        c
    }
}

/// Whether two words are the same without regard to case.
pub open spec fn same_word(a: Seq<char>, b: Seq<char>) -> bool {
    a.len() == b.len() && forall|i: int| 0 <= i < a.len() ==> upper(#[trigger] a[i]) == upper(b[i])
}

/// Where the keyword of a line starts.
pub open spec fn keyword_start(line: Seq<char>) -> int {
    scan(line, false, 0)
}

/// Where the keyword of a line ends.
pub open spec fn keyword_end(line: Seq<char>) -> int {
    scan(line, true, keyword_start(line))
}

/// The keyword of a line: its first run of characters that are no white
/// space. It is empty for a line of white space.
pub open spec fn keyword(line: Seq<char>) -> Seq<char> {
    if 0 <= keyword_start(line) <= keyword_end(line) <= line.len() {
        line.subrange(keyword_start(line), keyword_end(line))
    } else {
        Seq::empty()
    }
}

/// The argument of a line: what follows the keyword, trimmed.
pub open spec fn argument(line: Seq<char>) -> Seq<char> {
    if 0 <= keyword_end(line) <= line.len() {
        trimmed(line.skip(keyword_end(line)))
    } else {
        Seq::empty()
    }
}

/// An entry that was just opened.
pub open spec fn opened(name: Seq<char>) -> LabelModel {
    LabelModel { name, title: None, linux: None, initrd: None, append: None }
}

/// The configuration with its last entry replaced.
pub open spec fn with_last(cfg: ConfigModel, label: LabelModel) -> ConfigModel {
    ConfigModel { labels: cfg.labels.drop_last().push(label), ..cfg }
}

/// The configuration after one more line.
pub open spec fn apply_line(cfg: ConfigModel, line: Seq<char>) -> ConfigModel {
    let key = keyword(line);
    let arg = argument(line);
    if same_word(key, "DEFAULT"@) {
        ConfigModel { default: Some(arg), ..cfg }
    } else if same_word(key, "TIMEOUT"@) {
        match parse_int(arg) {
            Some(n) => if n >= 0 {
                ConfigModel { timeout: Some(n as u64), ..cfg }
            } else {
                cfg
            },
            None => cfg,
        }
    } else if same_word(key, "LABEL"@) {
        ConfigModel { labels: cfg.labels.push(opened(arg)), ..cfg }
    } else if cfg.labels.len() == 0 {
        cfg
    } else if same_word(key, "MENU"@) {
        if same_word(keyword(arg), "LABEL"@) {
            with_last(cfg, LabelModel { title: Some(argument(arg)), ..cfg.labels.last() })
        } else {
            cfg
        }
    } else if same_word(key, "LINUX"@) {
        with_last(cfg, LabelModel { linux: Some(arg), ..cfg.labels.last() })
    } else if same_word(key, "INITRD"@) {
        with_last(cfg, LabelModel { initrd: Some(arg), ..cfg.labels.last() })
    } else if same_word(key, "APPEND"@) {
        with_last(cfg, LabelModel { append: Some(arg), ..cfg.labels.last() })
    } else {
        cfg
    }
}

/// The configuration after the given lines, one after the other.
pub open spec fn apply_lines(cfg: ConfigModel, ls: Seq<Seq<char>>) -> ConfigModel
    decreases ls.len(),
{
    if ls.len() == 0 {
        cfg
    } else {
        apply_lines(apply_line(cfg, ls[0]), ls.drop_first())
    }
}

/// A configuration that says nothing.
pub open spec fn silent() -> ConfigModel {
    ConfigModel { default: None, timeout: None, labels: Seq::empty() }
}

/// What the text of a configuration says.
pub open spec fn syslinux_config(source: Seq<char>) -> ConfigModel {
    apply_lines(silent(), lines(source))
}

/// A letter in upper case, in executable form.
fn upper_char(c: char) -> (r: char)
    ensures
        r == upper(c),
{
    if 'a' <= c && c <= 'z' {
        ((c as u32 - 32) as u8) as char
    } else {
        c
    }
}

/// Whether `v[from..to]` is the given word without regard to case.
fn is_word(v: &Vec<char>, from: usize, to: usize, word: &str) -> (r: bool)
    requires
        from <= to <= v.len(),
    ensures
        r == same_word(v@.subrange(from as int, to as int), word@),
{
    let w = chars_of(word);
    let ghost a = v@.subrange(from as int, to as int);
    if to - from != w.len() {
        return false;
    }
    let mut i: usize = 0;
    while i < w.len()
        invariant
            i <= w.len(),
            w@ == word@,
            from <= to <= v.len(),
            to - from == w.len(),
            a == v@.subrange(from as int, to as int),
            forall|j: int| 0 <= j < i ==> upper(#[trigger] a[j]) == upper(w@[j]),
        decreases w.len() - i,
    {
        assert(a[i as int] == v@[from + i]);
        if upper_char(v[from + i]) != upper_char(w[i]) {
            return false;
        }
        i += 1;
    }
    true
}

/// The bounds of `v[from..to]` without the white space around it.
pub(crate) fn trim_bounds(v: &Vec<char>, from: usize, to: usize) -> (r: (usize, usize))
    requires
        from <= to <= v.len(),
    ensures
        from <= r.0 <= r.1 <= to,
        v@.subrange(r.0 as int, r.1 as int) == trimmed(v@.subrange(from as int, to as int)),
{
    let ghost s = v@.subrange(from as int, to as int);
    let mut end: usize = to;
    while end > from && is_space_char(v[end - 1])
        invariant
            from <= end <= to <= v.len(),
            s == v@.subrange(from as int, to as int),
            trim_end(s) == trim_end(v@.subrange(from as int, end as int)),
        decreases end - from,
    {
        proof {
            let t = v@.subrange(from as int, end as int);
            assert(t.last() == v@[end - 1]);
            assert(t.drop_last() =~= v@.subrange(from as int, end - 1));
        }
        end -= 1;
    }
    let ghost t = v@.subrange(from as int, end as int);
    proof {
        if end > from {
            assert(t.last() == v@[end - 1]);
        }
        assert(trim_end(t) == t);
    }
    let mut start: usize = from;
    while start < end && is_space_char(v[start])
        invariant
            from <= start <= end <= v.len(),
            t == v@.subrange(from as int, end as int),
            scan(t, false, 0) == scan(t, false, start - from),
        decreases end - start,
    {
        assert(t[start - from] == v@[start as int]);
        start += 1;
    }
    proof {
        if start < end {
            assert(t[start - from] == v@[start as int]);
        }
        lemma_scan(t, false, 0);
        assert(scan(t, false, 0) == start - from);
        assert(t.skip(start - from) =~= v@.subrange(start as int, end as int));
    }
    (start, end)
}

/// The bounds of the keyword and of the argument of the line `v[from..to]`.
fn split_line(v: &Vec<char>, from: usize, to: usize) -> (r: (usize, usize, usize, usize))
    requires
        from <= to <= v.len(),
    ensures
        from <= r.0 <= r.1 <= r.2 <= r.3 <= to,
        v@.subrange(r.0 as int, r.1 as int) == keyword(v@.subrange(from as int, to as int)),
        v@.subrange(r.2 as int, r.3 as int) == argument(v@.subrange(from as int, to as int)),
{
    let ghost line = v@.subrange(from as int, to as int);
    let mut start: usize = from;
    while start < to && is_space_char(v[start])
        invariant
            from <= start <= to <= v.len(),
            line == v@.subrange(from as int, to as int),
            scan(line, false, 0) == scan(line, false, start - from),
        decreases to - start,
    {
        assert(line[start - from] == v@[start as int]);
        start += 1;
    }
    proof {
        if start < to {
            assert(line[start - from] == v@[start as int]);
        }
        assert(keyword_start(line) == start - from);
    }
    let mut end: usize = start;
    while end < to && !is_space_char(v[end])
        invariant
            from <= start <= end <= to <= v.len(),
            line == v@.subrange(from as int, to as int),
            scan(line, true, start - from) == scan(line, true, end - from),
        decreases to - end,
    {
        assert(line[end - from] == v@[end as int]);
        end += 1;
    }
    proof {
        if end < to {
            assert(line[end - from] == v@[end as int]);
        }
        assert(keyword_end(line) == end - from);
        assert(line.subrange(start - from, end - from) =~= v@.subrange(start as int, end as int));
        assert(line.skip(end - from) =~= v@.subrange(end as int, to as int));
    }
    let (a, b) = trim_bounds(v, end, to);
    (start, end, a, b)
}

/// Takes the last entry out of a configuration.
fn take_last(cfg: &mut SyslinuxConfig) -> (label: Label)
    requires
        old(cfg).labels.len() > 0,
    ensures
        label@ == old(cfg)@.labels.last(),
        final(cfg).default == old(cfg).default,
        final(cfg).timeout == old(cfg).timeout,
        labels_view(final(cfg).labels@) == old(cfg)@.labels.drop_last(),
{
    let ghost before = labels_view(cfg.labels@);
    let label = cfg.labels.pop().unwrap();
    proof {
        assert(labels_view(cfg.labels@) =~= before.drop_last());
    }
    label
}

/// Puts an entry at the end of a configuration.
fn put_last(cfg: &mut SyslinuxConfig, label: Label)
    ensures
        final(cfg).default == old(cfg).default,
        final(cfg).timeout == old(cfg).timeout,
        labels_view(final(cfg).labels@) == labels_view(old(cfg).labels@).push(label@),
{
    let ghost before = labels_view(cfg.labels@);
    cfg.labels.push(label);
    proof {
        assert(labels_view(cfg.labels@) =~= before.push(label@));
    }
}

/// Applies the line `v[from..to]` to a configuration.
fn apply(cfg: &mut SyslinuxConfig, v: &Vec<char>, from: usize, to: usize)
    requires
        from <= to <= v.len(),
    ensures
        final(cfg)@ == apply_line(old(cfg)@, v@.subrange(from as int, to as int)),
{
    let ghost line = v@.subrange(from as int, to as int);
    let (ks, ke, a, b) = split_line(v, from, to);
    if is_word(v, ks, ke, "DEFAULT") {
        cfg.default = Some(string_of(v, a, b));
    } else if is_word(v, ks, ke, "TIMEOUT") {
        let text = string_of(v, a, b);
        match parse_integer(text.as_str()) {
            Some(n) => {
                if n >= 0 {
                    cfg.timeout = Some(n as u64);
                }
            },
            None => {},
        }
    } else if is_word(v, ks, ke, "LABEL") {
        let label = Label {
            name: string_of(v, a, b),
            title: None,
            linux: None,
            initrd: None,
            append: None,
        };
        put_last(cfg, label);
    } else if cfg.labels.len() == 0 {
    } else if is_word(v, ks, ke, "MENU") {
        let (ks2, ke2, a2, b2) = split_line(v, a, b);
        if is_word(v, ks2, ke2, "LABEL") {
            let mut label = take_last(cfg);
            label.title = Some(string_of(v, a2, b2));
            put_last(cfg, label);
            proof {
                assert(cfg@ =~= apply_line(old(cfg)@, line));
            }
        }
    } else if is_word(v, ks, ke, "LINUX") {
        let mut label = take_last(cfg);
        label.linux = Some(string_of(v, a, b));
        put_last(cfg, label);
    } else if is_word(v, ks, ke, "INITRD") {
        let mut label = take_last(cfg);
        label.initrd = Some(string_of(v, a, b));
        put_last(cfg, label);
    } else if is_word(v, ks, ke, "APPEND") {
        let mut label = take_last(cfg);
        label.append = Some(string_of(v, a, b));
        put_last(cfg, label);
    }
}

/// Reads the text of a configuration.
pub fn parse_syslinux(source: &str) -> (cfg: SyslinuxConfig)
    ensures
        cfg@ == syslinux_config(source@),
{
    let text = chars_of(source);
    let mut cfg = SyslinuxConfig { default: None, timeout: None, labels: Vec::new() };
    let mut pos: usize = 0;
    proof {
        assert(text@.skip(0) =~= text@);
        assert(labels_view(cfg.labels@) =~= Seq::<LabelModel>::empty());
    }
    while pos < text.len()
        invariant
            pos <= text.len(),
            text@ == source@,
            syslinux_config(source@) == apply_lines(cfg@, lines(text@.skip(pos as int))),
        decreases text.len() - pos,
    {
        let (end, next) = next_line(&text, pos);
        proof {
            let ls = seq![text@.subrange(pos as int, end as int)] + lines(text@.skip(next as int));
            assert(ls[0] == text@.subrange(pos as int, end as int));
            assert(ls.drop_first() =~= lines(text@.skip(next as int)));
        }
        apply(&mut cfg, &text, pos, end);
        pos = next;
    }
    proof {
        assert(text@.skip(pos as int).len() == 0);
    }
    cfg
}

/// The places, relative to the mount point, at which the configuration is
/// looked for, in this order.
pub open spec fn syslinux_path(which: int) -> Seq<char> {
    if which == 0 {
        "extlinux/extlinux.conf"@
    } else {
        "syslinux/syslinux.cfg"@
    }
}

/// The directory, relative to the mount point, of each of these places.
pub open spec fn syslinux_dir(which: int) -> Seq<char> {
    if which == 0 {
        "extlinux"@
    } else {
        "syslinux"@
    }
}

/// Where a path of the configuration lies in the file system: a path that
/// starts at the root of the device lies under the mount point, any other
/// path lies under the directory of the configuration.
pub open spec fn resolved(mountpoint: Seq<char>, dir: Seq<char>, path: Seq<char>) -> Seq<char> {
    if path.len() > 0 && path[0] == '/' {
        mountpoint + path
    } else {
        join_path(join_path(mountpoint, dir), path)
    }
}

/// A resolved path, if there is a path.
pub open spec fn resolved_option(
    mountpoint: Seq<char>,
    dir: Seq<char>,
    path: Option<Seq<char>>,
) -> Option<Seq<char>> {
    match path {
        Some(p) => Some(resolved(mountpoint, dir, p)),
        None => None,
    }
}

/// The title under which an entry is shown: the one that `MENU LABEL`
/// gives, or the name of the entry.
pub open spec fn title_of(label: LabelModel) -> Seq<char> {
    match label.title {
        Some(title) => title,
        None => label.name,
    }
}

/// The entries that name a kernel, in order. The others cannot be booted
/// and are not shown.
pub open spec fn bootable(labels: Seq<LabelModel>) -> Seq<LabelModel>
    decreases labels.len(),
{
    if labels.len() == 0 {
        Seq::empty()
    } else if labels.last().linux is Some {
        bootable(labels.drop_last()).push(labels.last())
    } else {
        bootable(labels.drop_last())
    }
}

/// The index, from `i` on, of the first entry with the given name, or the
/// number of entries.
pub open spec fn first_labelled(labels: Seq<LabelModel>, name: Seq<char>, i: int) -> int
    decreases labels.len() - i,
{
    if i < 0 || i >= labels.len() {
        labels.len() as int
    } else if labels[i].name == name {
        i
    } else {
        first_labelled(labels, name, i + 1)
    }
}

/// The index, among the entries that can be booted, of the entry to boot:
/// the first with the name that is asked for; or, where none is asked for,
/// the first with the name that `DEFAULT` gives, or else the first entry.
pub open spec fn syslinux_choice(cfg: ConfigModel, entry_id: Option<Seq<char>>) -> Option<int> {
    let entries = bootable(cfg.labels);
    match entry_id {
        Some(name) => {
            let k = first_labelled(entries, name, 0);
            if 0 <= k < entries.len() {
                Some(k)
            } else {
                None
            }
        },
        None => {
            let k = match cfg.default {
                Some(name) => first_labelled(entries, name, 0),
                None => entries.len() as int,
            };
            if 0 <= k < entries.len() {
                Some(k)
            } else if entries.len() > 0 {
                Some(0)
            } else {
                None
            }
        },
    }
}

/// The timeout of a configuration in seconds: a tenth of what `TIMEOUT`
/// gives, rounded down; zero if the configuration gives none.
pub open spec fn syslinux_timeout(cfg: ConfigModel) -> u64 {
    match cfg.timeout {
        Some(tenths) => tenths / 10,
        None => 0,
    }
}

/// The boot entries that a device with this configuration offers, among
/// the first `n` of its entries that can be booted: each under its title,
/// with kernel and initial RAM disk resolved and with the command line
/// that `APPEND` gives; the default entry is marked as default.
pub open spec fn syslinux_offers(
    cfg: ConfigModel,
    mountpoint: Seq<char>,
    dir: Seq<char>,
    n: int,
) -> Seq<EntryModel>
    decreases n,
{
    let entries = bootable(cfg.labels);
    if n <= 0 || n > entries.len() {
        Seq::empty()
    } else {
        syslinux_offers(cfg, mountpoint, dir, n - 1).push(
            EntryModel {
                default: syslinux_choice(cfg, None) == Some(n - 1),
                display: title_of(entries[n - 1]),
                linux: match entries[n - 1].linux {
                    Some(path) => resolved(mountpoint, dir, path),
                    None => Seq::empty(),
                },
                initrd: resolved_option(mountpoint, dir, entries[n - 1].initrd),
                cmdline: entries[n - 1].append,
            },
        )
    }
}

/// The boot loader of a device whose syslinux configuration was read.
pub struct SyslinuxBootLoader {
    mountpoint: String,
    dir: String,
    config: SyslinuxConfig,
}

impl SyslinuxBootLoader {
    /// What the configuration says.
    pub closed spec fn configuration(&self) -> ConfigModel {
        self.config@
    }

    /// Where the device is mounted.
    pub closed spec fn mounted_at(&self) -> Seq<char> {
        self.mountpoint@
    }

    /// The directory of the configuration, relative to the mount point.
    pub closed spec fn directory(&self) -> Seq<char> {
        self.dir@
    }

    /// Picks the configuration to use: the first of the two places at
    /// which one exists.
    pub fn locate(in_extlinux: bool, in_syslinux: bool) -> (r: Result<usize, BootLoaderError>)
        ensures
            in_extlinux ==> r == Ok::<usize, BootLoaderError>(0),
            !in_extlinux && in_syslinux ==> r == Ok::<usize, BootLoaderError>(1),
            !in_extlinux && !in_syslinux ==> r matches Err(BootLoaderError::BootConfigNotFound),
    {
        if in_extlinux {
            Ok(0)
        } else if in_syslinux {
            Ok(1)
        } else {
            Err(BootLoaderError::BootConfigNotFound)
        }
    }

    /// The path, relative to the mount point, of a configuration.
    pub fn config_file(which: usize) -> (r: &'static str)
        ensures
            r@ == syslinux_path(which as int),
    {
        if which == 0 {
            "extlinux/extlinux.conf"
        } else {
            "syslinux/syslinux.cfg"
        }
    }

    /// The boot loader of the device mounted at `mountpoint`, from the text
    /// of its configuration.
    pub fn new(mountpoint: &str, which: usize, source: &str) -> (r: Self)
        ensures
            r.mounted_at() == mountpoint@,
            r.directory() == syslinux_dir(which as int),
            r.configuration() == syslinux_config(source@),
    {
        let dir = if which == 0 {
            "extlinux"
        } else {
            "syslinux"
        };
        SyslinuxBootLoader {
            mountpoint: mountpoint.to_string(),
            dir: dir.to_string(),
            config: parse_syslinux(source),
        }
    }

    /// How long the menu waits before it boots the default entry, in
    /// seconds.
    pub fn timeout(&self) -> (seconds: u64)
        ensures
            seconds == syslinux_timeout(self.configuration()),
    {
        match self.config.timeout {
            Some(tenths) => tenths / 10,
            None => 0,
        }
    }

    /// Where the device is mounted.
    pub fn mountpoint(&self) -> (r: &String)
        ensures
            r@ == self.mounted_at(),
    {
        &self.mountpoint
    }

    /// The entries that can be booted, in order.
    fn entries(&self) -> (all: Vec<&Label>)
        ensures
            all@.map_values(|l: &Label| l@) == bootable(self.config@.labels),
    {
        let mut all: Vec<&Label> = Vec::new();
        let ghost view = |l: &Label| l@;
        let ghost labels = self.config@.labels;
        let mut i: usize = 0;
        proof {
            assert(labels.take(0) =~= Seq::<LabelModel>::empty());
            assert(all@.map_values(view) =~= Seq::<LabelModel>::empty());
        }
        while i < self.config.labels.len()
            invariant
                i <= self.config.labels.len(),
                labels == labels_view(self.config.labels@),
                view == |l: &Label| l@,
                all@.map_values(view) == bootable(labels.take(i as int)),
            decreases self.config.labels.len() - i,
        {
            let ghost before = all@.map_values(view);
            proof {
                assert(labels.take(i + 1).drop_last() =~= labels.take(i as int));
                assert(labels.take(i + 1).last() == self.config.labels@[i as int]@);
            }
            if self.config.labels[i].linux.is_some() {
                all.push(&self.config.labels[i]);
                proof {
                    assert(all@.map_values(view) =~= before.push(self.config.labels@[i as int]@));
                }
            }
            i += 1;
        }
        proof {
            assert(labels.take(self.config.labels.len() as int) =~= labels);
        }
        all
    }

    /// The index of the first entry with the given name, or the number of
    /// entries.
    fn find_label(all: &Vec<&Label>, name: &str) -> (k: usize)
        ensures
            k == first_labelled(all@.map_values(|l: &Label| l@), name@, 0),
            k <= all.len(),
    {
        let ghost models = all@.map_values(|l: &Label| l@);
        let mut k: usize = 0;
        while k < all.len()
            invariant
                k <= all.len(),
                models == all@.map_values(|l: &Label| l@),
                first_labelled(models, name@, 0) == first_labelled(models, name@, k as int),
            decreases all.len() - k,
        {
            assert(models[k as int] == all@[k as int]@);
            if crate::text::same_text(all[k].name.as_str(), name) {
                return k;
            }
            k += 1;
        }
        k
    }

    /// A path of the configuration, resolved.
    fn resolve(&self, path: &str) -> (r: String)
        ensures
            r@ == resolved(self.mountpoint@, self.dir@, path@),
    {
        let p = chars_of(path);
        if p.len() > 0 && p[0] == '/' {
            let mut r = self.mountpoint.clone();
            r.append(path);
            r
        } else {
            let base = path_join(self.mountpoint.as_str(), self.dir.as_str());
            path_join(base.as_str(), path)
        }
    }

    /// The menu: a line for each entry that names a kernel, with the name
    /// of the entry as id and with its title.
    pub fn menu_entries(&self) -> (r: Result<Vec<MenuEntry>, BootLoaderError>)
        ensures
            r matches Ok(menu) && crate::menu::menu_view(menu@) == bootable(
                self.configuration().labels,
            ).map_values(|l: LabelModel| MenuModel::BootEntry((l.name, title_of(l)))),
    {
        let all = self.entries();
        let ghost models = bootable(self.config@.labels);
        let ghost line = |l: LabelModel| MenuModel::BootEntry((l.name, title_of(l)));
        let mut menu: Vec<MenuEntry> = Vec::new();
        let mut i: usize = 0;
        proof {
            assert(crate::menu::menu_view(menu@) =~= models.map_values(line).take(0));
        }
        while i < all.len()
            invariant
                i <= all.len(),
                models == all@.map_values(|l: &Label| l@),
                line == |l: LabelModel| MenuModel::BootEntry((l.name, title_of(l))),
                crate::menu::menu_view(menu@) == models.map_values(line).take(i as int),
            decreases all.len() - i,
        {
            let ghost before = crate::menu::menu_view(menu@);
            assert(models[i as int] == all@[i as int]@);
            let title = match &all[i].title {
                Some(title) => title.clone(),
                None => all[i].name.clone(),
            };
            let entry = MenuEntry::BootEntry((all[i].name.clone(), title));
            menu.push(entry);
            proof {
                assert(crate::menu::menu_view(menu@) =~= before.push(line(models[i as int])));
                assert(crate::menu::menu_view(menu@) =~= models.map_values(line).take(i + 1));
            }
            i += 1;
        }
        proof {
            assert(models.map_values(line).take(all.len() as int) =~= models.map_values(line));
        }
        Ok(menu)
    }

    /// The boot entries that the device offers, in the order of the
    /// configuration.
    pub fn boot_entries(&self) -> (r: Vec<LinuxBootEntry>)
        ensures
            entries_view(r@) == syslinux_offers(
                self.configuration(),
                self.mounted_at(),
                self.directory(),
                bootable(self.configuration().labels).len() as int,
            ),
    {
        let all = self.entries();
        let ghost models = bootable(self.config@.labels);
        let found = match &self.config.default {
            Some(name) => Self::find_label(&all, name.as_str()),
            None => all.len(),
        };
        let default: usize = if found < all.len() {
            found
        } else {
            0
        };
        let mut r: Vec<LinuxBootEntry> = Vec::new();
        let mut i: usize = 0;
        proof {
            assert(entries_view(r@) =~= Seq::<EntryModel>::empty());
        }
        while i < all.len()
            invariant
                i <= all.len(),
                default < all.len() || all.len() == 0,
                models == all@.map_values(|l: &Label| l@),
                models == bootable(self.config@.labels),
                all.len() > 0 ==> syslinux_choice(self.config@, None) == Some(default as int),
                entries_view(r@) == syslinux_offers(
                    self.config@,
                    self.mountpoint@,
                    self.dir@,
                    i as int,
                ),
            decreases all.len() - i,
        {
            let ghost before = entries_view(r@);
            assert(models[i as int] == all@[i as int]@);
            let label = all[i];
            let display = match &label.title {
                Some(title) => title.clone(),
                None => label.name.clone(),
            };
            let linux = match &label.linux {
                Some(path) => self.resolve(path.as_str()),
                None => String::new(),
            };
            let initrd = match &label.initrd {
                Some(path) => Some(self.resolve(path.as_str())),
                None => None,
            };
            let entry = LinuxBootEntry {
                default: i == default,
                display,
                linux,
                initrd,
                cmdline: crate::message::copy_text(&label.append),
            };
            r.push(entry);
            proof {
                assert(entries_view(r@) =~= before.push(entry@));
            }
            i += 1;
        }
        r
    }

    /// What is needed to boot the entry with the name that is asked for,
    /// or, where none is asked for, the default entry: the kernel and the
    /// initial RAM disk, resolved, and the command line, which is empty if
    /// the entry gives none.
    pub fn boot_info(&self, entry_id: Option<String>) -> (r: Result<BootInfo, BootLoaderError>)
        ensures
            match syslinux_choice(
                self.configuration(),
                match entry_id {
                    Some(name) => Some(name@),
                    None => None,
                },
            ) {
                Some(k) => {
                    let label = bootable(self.configuration().labels)[k];
                    r matches Ok(info) && label.linux is Some && info.linux@ == resolved(
                        self.mounted_at(),
                        self.directory(),
                        label.linux->Some_0,
                    ) && text_view(info.initrd) == resolved_option(
                        self.mounted_at(),
                        self.directory(),
                        label.initrd,
                    ) && info.cmdline@ == match label.append {
                        Some(text) => text,
                        None => Seq::empty(),
                    }
                },
                None => r matches Err(BootLoaderError::BootEntryNotFound),
            },
    {
        let all = self.entries();
        let ghost models = bootable(self.config@.labels);
        let index = match &entry_id {
            Some(name) => Self::find_label(&all, name.as_str()),
            None => {
                let k = match &self.config.default {
                    Some(name) => Self::find_label(&all, name.as_str()),
                    None => all.len(),
                };
                if k < all.len() {
                    k
                } else {
                    0
                }
            },
        };
        if index >= all.len() {
            return Err(BootLoaderError::BootEntryNotFound);
        }
        let label = all[index];
        assert(models[index as int] == label@);
        proof {
            lemma_bootable_named(self.config@.labels, index as int);
        }
        let linux = match &label.linux {
            Some(path) => self.resolve(path.as_str()),
            None => {
                return Err(BootLoaderError::BootEntryNotFound);
            },
        };
        let initrd = match &label.initrd {
            Some(path) => Some(self.resolve(path.as_str())),
            None => None,
        };
        let cmdline = match &label.append {
            Some(text) => text.clone(),
            None => String::new(),
        };
        Ok(BootInfo { linux, initrd, cmdline })
    }
}

/// Every entry that can be booted names a kernel.
pub proof fn lemma_bootable_named(labels: Seq<LabelModel>, k: int)
    requires
        0 <= k < bootable(labels).len(),
    ensures
        bootable(labels)[k].linux is Some,
    decreases labels.len(),
{
    if labels.len() > 0 {
        if labels.last().linux is Some {
            if k < bootable(labels.drop_last()).len() {
                lemma_bootable_named(labels.drop_last(), k);
            }
        } else {
            lemma_bootable_named(labels.drop_last(), k);
        }
    }
}

} // verus!
