//! The GRUB boot loader of one mounted device: its menu, its timeout, and
//! the choice of the entry to boot.

use crate::commands::{join_path, path_join};
use crate::environment::TinybootGrubEnvironment;
use crate::evaluator::GrubEvaluator;
use crate::lexer::lexed;
use crate::machine::started;
use crate::menu::{
    choices, entry_name, entry_shape, item_shape, items_shape, menu_from, menu_of, menu_shape,
    menu_view, EntryShape, GrubEntry, ItemShape, MenuEntry,
};
use crate::message::{entries_view, text_view, EntryModel, LinuxBootEntry};
use crate::predicate::{parse_int, parse_integer, parse_unsigned, parse_usize};
use vstd::prelude::*;

verus! {

/// Why a boot loader could not be set up or an entry could not be booted.
#[derive(Debug, PartialEq, Eq)]
pub enum BootLoaderError {
    /// The device holds no configuration of this boot loader.
    BootConfigNotFound,
    /// The mount point is no valid text.
    InvalidMountpoint,
    /// The configuration could not be evaluated.
    Evaluation(String),
    /// No entry has the name or the index that was asked for.
    BootEntryNotFound,
    /// The entry names no kernel.
    BootEntryIncomplete,
    /// The file system reported a failure.
    Io(String),
}

/// What is needed to boot an entry.
#[derive(Debug, PartialEq, Eq)]
pub struct BootInfo {
    /// The kernel.
    pub linux: String,
    /// The initial RAM disk, if the entry names one.
    pub initrd: Option<String>,
    /// The command line of the kernel.
    pub cmdline: String,
}

/// The timeout, in seconds, of a menu whose configuration sets none.
pub const DEFAULT_TIMEOUT: u64 = 5;

/// What is said of a script that leaves a quote open.
pub const UNTERMINATED: &'static str = "unterminated quote";

/// The places, relative to the mount point, at which the configuration is
/// looked for, in this order.
pub open spec fn config_path(which: int) -> Seq<char> {
    if which == 0 {
        "boot/grub/grub.cfg"@
    } else {
        "grub/grub.cfg"@
    }
}

/// The directory, relative to the mount point, of each of these places.
pub open spec fn config_dir(which: int) -> Seq<char> {
    if which == 0 {
        "boot/grub"@
    } else {
        "grub"@
    }
}

/// The timeout that an environment asks for: the value of `timeout`, in
/// seconds, where it is set to an integer that is not negative; else five
/// seconds.
pub open spec fn timeout_of(env: Map<Seq<char>, Seq<char>>) -> u64 {
    if env.contains_key("timeout"@) {
        match parse_int(env["timeout"@]) {
            Some(n) => if n >= 0 {
                n as u64
            } else {
                DEFAULT_TIMEOUT
            },
            None => DEFAULT_TIMEOUT,
        }
    } else {
        DEFAULT_TIMEOUT
    }
}

/// Whether an entry is a boot entry with the given name.
pub open spec fn is_named(entry: ItemShape, name: Seq<char>) -> bool {
    entry.consequence is Some && entry_name(entry) == name
}

/// The index, from `i` on, of the first boot entry with the given name, or
/// the number of entries if there is none.
pub open spec fn first_named(entries: Seq<ItemShape>, name: Seq<char>, i: int) -> int
    decreases entries.len() - i,
{
    if i < 0 || i >= entries.len() {
        entries.len() as int
    } else if is_named(entries[i], name) {
        i
    } else {
        first_named(entries, name, i + 1)
    }
}

/// The index of the entry that is booted when none is asked for: the
/// value of the variable `default` where it is an unsigned decimal number
/// that a `usize` holds; else the index of the first boot entry that
/// `default` names; else 0.
pub open spec fn default_index(entries: Seq<ItemShape>, env: Map<Seq<char>, Seq<char>>) -> int {
    if env.contains_key("default"@) {
        let k = first_named(entries, env["default"@], 0);
        match parse_unsigned(env["default"@]) {
            Some(n) => n,
            None => if 0 <= k < entries.len() {
                k
            } else {
                0
            },
        }
    } else {
        0
    }
}

/// The index, among the entries that can be chosen, of the entry to boot:
/// the first boot entry with the name that is asked for, or the default if
/// no name is asked for. There is none if no boot entry stands there.
pub open spec fn chosen_index(
    entries: Seq<ItemShape>,
    env: Map<Seq<char>, Seq<char>>,
    entry_id: Option<Seq<char>>,
) -> Option<int> {
    let k = match entry_id {
        Some(name) => first_named(entries, name, 0),
        None => default_index(entries, env),
    };
    if 0 <= k < entries.len() && entries[k].consequence is Some {
        Some(k)
    } else {
        None
    }
}

/// What is needed to boot once the script of an entry has run: the kernel
/// is the value of `linux`, the initial RAM disk that of `initrd`, the
/// command line that of `linux_cmdline`, or empty. Without `linux` the
/// entry is incomplete.
pub open spec fn boot_info_of(env: Map<Seq<char>, Seq<char>>) -> Option<
    (Seq<char>, Option<Seq<char>>, Seq<char>),
> {
    if env.contains_key("linux"@) {
        Some(
            (
                env["linux"@],
                if env.contains_key("initrd"@) {
                    Some(env["initrd"@])
                } else {
                    None
                },
                if env.contains_key("linux_cmdline"@) {
                    env["linux_cmdline"@]
                } else {
                    Seq::empty()
                },
            ),
        )
    } else {
        None
    }
}

/// The shapes of entries that are referred to.
pub open spec fn shapes_of(entries: Seq<&GrubEntry>) -> Seq<ItemShape> {
    entries.map_values(|e: &GrubEntry| item_shape(*e))
}

/// Whether a result is the evaluator of the script of an entry, started on
/// the given variables: an entry without script has none, and neither has
/// one whose script leaves a quote open.
pub open spec fn entry_evaluator(
    entry: ItemShape,
    env: Map<Seq<char>, Seq<char>>,
    r: Result<GrubEvaluator, BootLoaderError>,
) -> bool {
    match entry.consequence {
        None => r matches Err(BootLoaderError::BootEntryNotFound),
        Some(script) => match lexed(script) {
            Some(tokens) => r matches Ok(evaluator) && evaluator@ == started(script, tokens, env),
            None => r matches Err(BootLoaderError::Evaluation(said)) && said@ == UNTERMINATED@,
        },
    }
}

/// Whether a result is what is needed to boot, as the given variables say
/// it.
pub open spec fn boot_info_is(
    env: Map<Seq<char>, Seq<char>>,
    r: Result<BootInfo, BootLoaderError>,
) -> bool {
    match boot_info_of(env) {
        Some((linux, initrd, cmdline)) => r matches Ok(info) && info.linux@ == linux
            && info.cmdline@ == cmdline && text_view(info.initrd) == initrd,
        None => r matches Err(BootLoaderError::BootEntryIncomplete),
    }
}

/// Whether two results name the same kernel, the same initial RAM disk and
/// the same command line, or fail in the same way.
pub open spec fn same_boot_info(
    a: Result<BootInfo, BootLoaderError>,
    b: Result<BootInfo, BootLoaderError>,
) -> bool {
    match a {
        Ok(info) => b matches Ok(other) && info.linux@ == other.linux@ && text_view(info.initrd)
            == text_view(other.initrd) && info.cmdline@ == other.cmdline@,
        Err(BootLoaderError::BootConfigNotFound) => b matches Err(
            BootLoaderError::BootConfigNotFound,
        ),
        Err(BootLoaderError::InvalidMountpoint) => b matches Err(
            BootLoaderError::InvalidMountpoint,
        ),
        Err(BootLoaderError::Evaluation(said)) => b matches Err(BootLoaderError::Evaluation(other))
            && said@ == other@,
        Err(BootLoaderError::BootEntryNotFound) => b matches Err(
            BootLoaderError::BootEntryNotFound,
        ),
        Err(BootLoaderError::BootEntryIncomplete) => b matches Err(
            BootLoaderError::BootEntryIncomplete,
        ),
        Err(BootLoaderError::Io(said)) => b matches Err(BootLoaderError::Io(other)) && said@
            == other@,
    }
}

/// The boot entries that a device offers, among the first `n` of the
/// entries that can be chosen: one for each entry for which what is needed
/// to boot it could be had, under the title of the entry; the one at the
/// index of the default is marked as default.
pub open spec fn offers(
    entries: Seq<ItemShape>,
    infos: Seq<Option<BootInfo>>,
    default: Option<usize>,
    n: int,
) -> Seq<EntryModel>
    decreases n,
{
    if n <= 0 || n > entries.len() || n > infos.len() {
        Seq::empty()
    } else {
        let front = offers(entries, infos, default, n - 1);
        match infos[n - 1] {
            Some(info) => front.push(
                EntryModel {
                    default: default == Some((n - 1) as usize),
                    display: entries[n - 1].title,
                    linux: info.linux@,
                    initrd: text_view(info.initrd),
                    cmdline: Some(info.cmdline@),
                },
            ),
            None => front,
        }
    }
}

/// The boot entries that a device offers: `infos` holds, for each of the
/// entries that can be chosen, what is needed to boot it, or nothing if
/// that could not be had; `default` is the index of the default entry.
pub fn offered_entries(
    entries: &Vec<&GrubEntry>,
    infos: &Vec<Option<BootInfo>>,
    default: Option<usize>,
) -> (r: Vec<LinuxBootEntry>)
    ensures
        entries_view(r@) == offers(
            shapes_of(entries@),
            infos@,
            default,
            if entries.len() <= infos.len() {
                entries.len() as int
            } else {
                infos.len() as int
            },
        ),
{
    let n = if entries.len() <= infos.len() {
        entries.len()
    } else {
        infos.len()
    };
    let ghost shapes = shapes_of(entries@);
    let mut r: Vec<LinuxBootEntry> = Vec::new();
    let mut i: usize = 0;
    proof {
        assert(entries_view(r@) =~= Seq::<EntryModel>::empty());
    }
    while i < n
        invariant
            i <= n,
            n <= entries.len(),
            n <= infos.len(),
            shapes == shapes_of(entries@),
            entries_view(r@) == offers(shapes, infos@, default, i as int),
        decreases n - i,
    {
        let ghost before = entries_view(r@);
        assert(shapes[i as int] == item_shape(*entries@[i as int]));
        match &infos[i] {
            Some(info) => {
                let is_default = match default {
                    Some(d) => d == i,
                    None => false,
                };
                let entry = LinuxBootEntry {
                    default: is_default,
                    display: entries[i].title.clone(),
                    linux: info.linux.clone(),
                    initrd: crate::message::copy_text(&info.initrd),
                    cmdline: Some(info.cmdline.clone()),
                };
                r.push(entry);
                proof {
                    assert(entries_view(r@) =~= before.push(entry@));
                }
            },
            None => {},
        }
        i += 1;
    }
    r
}

/// The boot loader of a device whose GRUB configuration was evaluated.
pub struct GrubBootLoader {
    mountpoint: String,
    menu: Vec<GrubEntry>,
    env: TinybootGrubEnvironment,
}

impl GrubBootLoader {
    /// The top-level entries of the menu, each with the entries under it.
    pub closed spec fn entries(&self) -> Seq<EntryShape> {
        menu_shape(self.menu@)
    }

    /// The variables after the evaluation of the configuration.
    pub closed spec fn variables(&self) -> Map<Seq<char>, Seq<char>> {
        self.env@
    }

    /// Where the device is mounted.
    pub closed spec fn mounted_at(&self) -> Seq<char> {
        self.mountpoint@
    }

    /// Picks the configuration to use: the first of the two places at
    /// which one exists.
    pub fn locate(in_boot_grub: bool, in_grub: bool) -> (r: Result<usize, BootLoaderError>)
        ensures
            in_boot_grub ==> r == Ok::<usize, BootLoaderError>(0),
            !in_boot_grub && in_grub ==> r == Ok::<usize, BootLoaderError>(1),
            !in_boot_grub && !in_grub ==> r matches Err(BootLoaderError::BootConfigNotFound),
    {
        if in_boot_grub {
            Ok(0)
        } else if in_grub {
            Ok(1)
        } else {
            Err(BootLoaderError::BootConfigNotFound)
        }
    }

    /// The path, relative to the mount point, of a configuration.
    pub fn config_file(which: usize) -> (r: &'static str)
        ensures
            r@ == config_path(which as int),
    {
        if which == 0 {
            "boot/grub/grub.cfg"
        } else {
            "grub/grub.cfg"
        }
    }

    /// The environment in which the configuration of a device is evaluated:
    /// a new one whose prefix is the directory of the configuration.
    pub fn environment(mountpoint: &str, which: usize) -> (r: TinybootGrubEnvironment)
        ensures
            r@ == Map::<Seq<char>, Seq<char>>::empty().insert("?"@, "0"@).insert(
                "prefix"@,
                join_path(mountpoint@, config_dir(which as int)),
            ).insert("grub_platform"@, "tinyboot"@),
    {
        let dir = if which == 0 {
            "boot/grub"
        } else {
            "grub"
        };
        let prefix = path_join(mountpoint, dir);
        TinybootGrubEnvironment::new(prefix.as_str())
    }

    /// The boot loader of the device mounted at `mountpoint`, with the menu
    /// and the variables that the evaluation of its configuration left.
    pub fn new(mountpoint: &str, menu: Vec<GrubEntry>, env: TinybootGrubEnvironment) -> (r: Self)
        ensures
            r.mounted_at() == mountpoint@,
            r.entries() == menu_shape(menu@),
            r.variables() == env@,
    {
        GrubBootLoader { mountpoint: mountpoint.to_string(), menu, env }
    }

    /// How long the menu waits before it boots the default entry, in
    /// seconds.
    pub fn timeout(&self) -> (seconds: u64)
        ensures
            seconds == timeout_of(self.variables()),
    {
        match self.env.get_env("timeout") {
            None => DEFAULT_TIMEOUT,
            Some(text) => match parse_integer(text.as_str()) {
                Some(n) => if n >= 0 {
                    n as u64
                } else {
                    DEFAULT_TIMEOUT
                },
                None => DEFAULT_TIMEOUT,
            },
        }
    }

    /// Where the device is mounted.
    pub fn mountpoint(&self) -> (r: &String)
        ensures
            r@ == self.mounted_at(),
    {
        &self.mountpoint
    }

    /// The variables after the evaluation of the configuration.
    pub fn env(&self) -> (r: &TinybootGrubEnvironment)
        ensures
            r@ == self.variables(),
    {
        &self.env
    }

    /// The menu: a line for each top-level boot entry, and a submenu with
    /// its boot entries for each top-level submenu.
    pub fn menu_entries(&self) -> (r: Result<Vec<MenuEntry>, BootLoaderError>)
        ensures
            r matches Ok(menu) && menu_view(menu@) == menu_of(self.entries()),
    {
        Ok(menu_from(&self.menu))
    }

    /// The entries that can be chosen, in order: each top-level entry that
    /// is no submenu, and, in the place of each submenu, the entries
    /// directly under it.
    pub fn boot_choices(&self) -> (all: Vec<&GrubEntry>)
        ensures
            shapes_of(all@) == choices(self.entries()),
    {
        let mut all: Vec<&GrubEntry> = Vec::new();
        let ghost shapes = menu_shape(self.menu@);
        let mut i: usize = 0;
        proof {
            assert(shapes.take(0) =~= Seq::<EntryShape>::empty());
            assert(shapes_of(all@) =~= Seq::<ItemShape>::empty());
        }
        while i < self.menu.len()
            invariant
                i <= self.menu.len(),
                shapes == menu_shape(self.menu@),
                shapes_of(all@) == choices(shapes.take(i as int)),
            decreases self.menu.len() - i,
        {
            let ghost before = shapes_of(all@);
            proof {
                assert(shapes.take(i + 1).drop_last() =~= shapes.take(i as int));
                assert(shapes.take(i + 1).last() == entry_shape(self.menu@[i as int]));
            }
            match &self.menu[i].menuentries {
                Some(under) => {
                    let ghost items = items_shape(under@);
                    let mut j: usize = 0;
                    proof {
                        assert(before + items.take(0) =~= before);
                    }
                    while j < under.len()
                        invariant
                            j <= under.len(),
                            items == items_shape(under@),
                            shapes_of(all@) == before + items.take(j as int),
                        decreases under.len() - j,
                    {
                        let ghost so_far = shapes_of(all@);
                        all.push(&under[j]);
                        proof {
                            assert(shapes_of(all@) =~= so_far.push(item_shape(under@[j as int])));
                            assert(shapes_of(all@) =~= before + items.take(j + 1));
                        }
                        j += 1;
                    }
                    proof {
                        assert(items.take(under.len() as int) =~= items);
                    }
                },
                None => {
                    all.push(&self.menu[i]);
                    proof {
                        assert(shapes_of(all@) =~= before + seq![item_shape(self.menu@[i as int])]);
                    }
                },
            }
            i += 1;
        }
        proof {
            assert(shapes.take(self.menu.len() as int) =~= shapes);
        }
        all
    }

    /// The index, among the entries that can be chosen, of the entry to
    /// boot.
    fn chosen(&self, all: &Vec<&GrubEntry>, entry_id: &Option<String>) -> (r: Option<usize>)
        requires
            shapes_of(all@) == choices(self.entries()),
        ensures
            match chosen_index(choices(self.entries()), self.variables(), text_view(*entry_id)) {
                Some(k) => r == Some(k as usize) && k < all.len(),
                None => r is None,
            },
    {
        let index: usize = match entry_id {
            Some(name) => Self::find_named(all, name.as_str()),
            None => match self.env.get_env("default") {
                None => 0,
                Some(text) => match parse_usize(text.as_str()) {
                    Some(n) => n,
                    None => {
                        let k = Self::find_named(all, text.as_str());
                        if k < all.len() {
                            k
                        } else {
                            0
                        }
                    },
                },
            },
        };
        if index < all.len() {
            assert(shapes_of(all@)[index as int] == item_shape(*all@[index as int]));
            if all[index].consequence.is_some() {
                return Some(index);
            }
        }
        None
    }

    /// The index, among the entries that can be chosen, of the default
    /// entry: the one that is booted when none is asked for.
    pub fn default_choice(&self) -> (r: Option<usize>)
        ensures
            match chosen_index(choices(self.entries()), self.variables(), None) {
                Some(k) => r == Some(k as usize),
                None => r is None,
            },
    {
        let all = self.boot_choices();
        self.chosen(&all, &None)
    }

    /// The entry to boot: the first boot entry with the name that is asked
    /// for, or, where none is asked for, the default entry.
    ///
    /// The default is the entry at the index that the variable `default`
    /// holds, or the first boot entry that it names, or the entry at index
    /// 0. Indices count the entries that can be chosen: top-level entries,
    /// with the entries of each submenu in the place of the submenu.
    pub fn boot_entry(&self, entry_id: Option<String>) -> (r: Result<&GrubEntry, BootLoaderError>)
        ensures
            match chosen_index(choices(self.entries()), self.variables(), text_view(entry_id)) {
                Some(k) => r matches Ok(entry) && item_shape(*entry) == choices(self.entries())[k],
                None => r matches Err(BootLoaderError::BootEntryNotFound),
            },
    {
        let all = self.boot_choices();
        match self.chosen(&all, &entry_id) {
            Some(index) => {
                assert(shapes_of(all@)[index as int] == item_shape(*all@[index as int]));
                Ok(all[index])
            },
            None => Err(BootLoaderError::BootEntryNotFound),
        }
    }

    /// The index of the first boot entry with the given name, or the
    /// number of entries.
    fn find_named(all: &Vec<&GrubEntry>, name: &str) -> (k: usize)
        ensures
            k == first_named(shapes_of(all@), name@, 0),
            k <= all.len(),
    {
        let ghost flat = shapes_of(all@);
        let mut k: usize = 0;
        while k < all.len()
            invariant
                k <= all.len(),
                flat == shapes_of(all@),
                first_named(flat, name@, 0) == first_named(flat, name@, k as int),
            decreases all.len() - k,
        {
            assert(flat[k as int] == item_shape(*all@[k as int]));
            if all[k].consequence.is_some() && crate::text::same_text(
                crate::menu::name_of(all[k]).as_str(),
                name,
            ) {
                return k;
            }
            k += 1;
        }
        k
    }

    /// The evaluator of the script of an entry. It runs against a copy of
    /// the variables of the boot loader, so that what the entry does is
    /// seen neither by the boot loader nor by another entry.
    pub fn eval_boot_entry(&self, entry: &GrubEntry) -> (r: Result<GrubEvaluator, BootLoaderError>)
        ensures
            entry_evaluator(item_shape(*entry), self.variables(), r),
    {
        GrubEvaluator::for_entry(entry, &self.env)
    }

    /// The evaluator of the script of the entry to boot: that of the entry
    /// with the name that is asked for, or of the default entry.
    pub fn eval_boot(&self, entry_id: Option<String>) -> (r: Result<GrubEvaluator, BootLoaderError>)
        ensures
            match chosen_index(choices(self.entries()), self.variables(), text_view(entry_id)) {
                Some(k) => entry_evaluator(choices(self.entries())[k], self.variables(), r),
                None => r matches Err(BootLoaderError::BootEntryNotFound),
            },
    {
        match self.boot_entry(entry_id) {
            Ok(entry) => self.eval_boot_entry(entry),
            Err(e) => Err(e),
        }
    }

    /// What is needed to boot an entry, read from the variables that the
    /// script of the entry left when it ran on a copy of the environment.
    pub fn boot_info(evaluated: &TinybootGrubEnvironment) -> (r: Result<BootInfo, BootLoaderError>)
        ensures
            boot_info_is(evaluated@, r),
    {
        let linux = match evaluated.get_env("linux") {
            Some(path) => path.clone(),
            None => {
                return Err(BootLoaderError::BootEntryIncomplete);
            },
        };
        let initrd = match evaluated.get_env("initrd") {
            Some(path) => Some(path.clone()),
            None => None,
        };
        let cmdline = match evaluated.get_env("linux_cmdline") {
            Some(text) => text.clone(),
            None => String::new(),
        };
        Ok(BootInfo { linux, initrd, cmdline })
    }
}

/// Two boot loaders with the same menu and the same variables show the
/// same: the same lines of the menu, the same timeout, and the same entry
/// for each name that is asked for.
pub proof fn lemma_boot_loaders_agree(
    first: GrubBootLoader,
    second: GrubBootLoader,
    entry_id: Option<String>,
    first_menu: Vec<MenuEntry>,
    second_menu: Vec<MenuEntry>,
    first_entry: Result<&GrubEntry, BootLoaderError>,
    second_entry: Result<&GrubEntry, BootLoaderError>,
)
    requires
        first.entries() == second.entries(),
        first.variables() == second.variables(),
        menu_view(first_menu@) == menu_of(first.entries()),
        menu_view(second_menu@) == menu_of(second.entries()),
        match chosen_index(choices(first.entries()), first.variables(), text_view(entry_id)) {
            Some(k) => first_entry matches Ok(entry) && item_shape(*entry) == choices(
                first.entries(),
            )[k],
            None => first_entry matches Err(BootLoaderError::BootEntryNotFound),
        },
        match chosen_index(choices(second.entries()), second.variables(), text_view(entry_id)) {
            Some(k) => second_entry matches Ok(entry) && item_shape(*entry) == choices(
                second.entries(),
            )[k],
            None => second_entry matches Err(BootLoaderError::BootEntryNotFound),
        },
    ensures
        menu_view(first_menu@) == menu_view(second_menu@),
        timeout_of(first.variables()) == timeout_of(second.variables()),
        match first_entry {
            Ok(entry) => second_entry matches Ok(other) && item_shape(*entry) == item_shape(*other),
            Err(_) => second_entry matches Err(BootLoaderError::BootEntryNotFound),
        },
{
}

/// Evaluating an entry again starts from the same state: the evaluators
/// that are started twice for one entry on equal variables are in the same
/// state, or there is none both times and for the same reason. What the
/// first evaluation did to its variables is not seen by the second, since
/// each runs on a copy.
pub proof fn lemma_entry_starts_the_same(
    entry: ItemShape,
    env: Map<Seq<char>, Seq<char>>,
    first: Result<GrubEvaluator, BootLoaderError>,
    second: Result<GrubEvaluator, BootLoaderError>,
)
    requires
        entry_evaluator(entry, env, first),
        entry_evaluator(entry, env, second),
    ensures
        match first {
            Ok(a) => second matches Ok(b) && a@ == b@,
            Err(BootLoaderError::Evaluation(said)) => second matches Err(
                BootLoaderError::Evaluation(other),
            ) && said@ == other@,
            Err(_) => second matches Err(BootLoaderError::BootEntryNotFound),
        },
{
}

/// What is needed to boot is a function of the variables that the script
/// of the entry has left: read twice from equal variables it names the
/// same kernel, the same initial RAM disk and the same command line.
pub proof fn lemma_boot_info_is_deterministic(
    env: Map<Seq<char>, Seq<char>>,
    first: Result<BootInfo, BootLoaderError>,
    second: Result<BootInfo, BootLoaderError>,
)
    requires
        boot_info_is(env, first),
        boot_info_is(env, second),
    ensures
        same_boot_info(first, second),
{
}

} // verus!
