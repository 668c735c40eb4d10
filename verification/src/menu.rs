//! The menu of a boot loader: boot entries and one level of submenus.

use vstd::prelude::*;

verus! {

/// One line of the menu as it is shown: a boot entry, with id and title, or
/// a submenu, with id, title and the boot entries under it.
#[derive(Debug, PartialEq, Eq)]
pub enum MenuEntry {
    BootEntry((String, String)),
    SubMenu((String, String, Vec<(String, String)>)),
}

/// Id and title of a boot entry.
pub type Item = (Seq<char>, Seq<char>);

/// The mathematical form of [`MenuEntry`].
pub enum MenuModel {
    BootEntry(Item),
    SubMenu(Seq<char>, Seq<char>, Seq<Item>),
}

impl View for MenuEntry {
    type V = MenuModel;

    open spec fn view(&self) -> MenuModel {
        match self {
            MenuEntry::BootEntry(item) => MenuModel::BootEntry((item.0@, item.1@)),
            MenuEntry::SubMenu(sub) => MenuModel::SubMenu(sub.0@, sub.1@, sub.2.deep_view()),
        }
    }
}

/// The views of a list of menu entries.
pub open spec fn menu_view(entries: Seq<MenuEntry>) -> Seq<MenuModel> {
    entries.map_values(|e: MenuEntry| e@)
}

/// The boot entries that one line of the menu stands for.
pub open spec fn items_of(entry: MenuModel) -> Seq<Item> {
    match entry {
        MenuModel::BootEntry(item) => seq![item],
        MenuModel::SubMenu(_, _, items) => items,
    }
}

/// The boot entries of a menu in the order in which they are shown, those
/// of a submenu in the place of the submenu.
pub open spec fn flattened(entries: Seq<MenuModel>) -> Seq<Item>
    decreases entries.len(),
{
    if entries.len() == 0 {
        Seq::empty()
    } else {
        flattened(entries.drop_last()) + items_of(entries.last())
    }
}

/// Flattens a menu: the boot entries in order, with the entries of each
/// submenu in the place of the submenu.
pub fn flatten_entries(entries: Vec<MenuEntry>) -> (flat: Vec<(String, String)>)
    ensures
        flat.deep_view() == flattened(menu_view(entries@)),
{
    let mut flat: Vec<(String, String)> = Vec::new();
    let ghost all = menu_view(entries@);
    let mut i: usize = 0;
    proof {
        assert(all.take(0) =~= Seq::<MenuModel>::empty());
        assert(flat.deep_view() =~= Seq::<Item>::empty());
    }
    while i < entries.len()
        invariant
            i <= entries.len(),
            all == menu_view(entries@),
            flat.deep_view() == flattened(all.take(i as int)),
        decreases entries.len() - i,
    {
        let ghost before = flat.deep_view();
        proof {
            assert(all.take(i + 1).drop_last() =~= all.take(i as int));
            assert(all.take(i + 1).last() == entries@[i as int]@);
        }
        match &entries[i] {
            MenuEntry::BootEntry(item) => {
                let id = item.0.clone();
                let title = item.1.clone();
                flat.push((id, title));
                proof {
                    assert(flat.deep_view() =~= before + seq![(id@, title@)]);
                }
            },
            MenuEntry::SubMenu(sub) => {
                let items = &sub.2;
                let mut j: usize = 0;
                while j < items.len()
                    invariant
                        j <= items.len(),
                        flat.deep_view() == before + items.deep_view().take(j as int),
                    decreases items.len() - j,
                {
                    let ghost so_far = flat.deep_view();
                    let id = items[j].0.clone();
                    let title = items[j].1.clone();
                    flat.push((id, title));
                    proof {
                        assert(flat.deep_view() =~= so_far.push((id@, title@)));
                        assert(items.deep_view()[j as int] == (id@, title@));
                        assert(flat.deep_view() =~= before + items.deep_view().take(j + 1));
                    }
                    j += 1;
                }
                proof {
                    assert(items.deep_view().take(items.len() as int) =~= items.deep_view());
                }
            },
        }
        i += 1;
    }
    proof {
        assert(all.take(entries.len() as int) =~= all);
    }
    flat
}

/// An entry of a GRUB menu as the evaluator collects it: a boot entry if it
/// has a script to run, a submenu if it has entries under it.
#[derive(Debug)]
pub struct GrubEntry {
    pub id: Option<String>,
    pub title: String,
    /// The script that boots the entry.
    pub consequence: Option<String>,
    /// The entries of a submenu.
    pub menuentries: Option<Vec<GrubEntry>>,
}

/// Id, title and script of an entry.
pub struct ItemShape {
    pub id: Option<Seq<char>>,
    pub title: Seq<char>,
    pub consequence: Option<Seq<char>>,
}

/// An entry of the menu with the entries directly under it. What lies
/// deeper is no part of the menu.
pub struct EntryShape {
    pub item: ItemShape,
    pub under: Option<Seq<ItemShape>>,
}

/// The view of an optional text.
pub open spec fn shape_text(text: Option<String>) -> Option<Seq<char>> {
    match text {
        Some(s) => Some(s@),
        None => None,
    }
}

/// Id, title and script of an entry.
pub open spec fn item_shape(entry: GrubEntry) -> ItemShape {
    ItemShape {
        id: shape_text(entry.id),
        title: entry.title@,
        consequence: shape_text(entry.consequence),
    }
}

/// The shapes of the entries under a submenu.
pub open spec fn items_shape(entries: Seq<GrubEntry>) -> Seq<ItemShape> {
    entries.map_values(|e: GrubEntry| item_shape(e))
}

/// An entry with the entries directly under it.
pub open spec fn entry_shape(entry: GrubEntry) -> EntryShape {
    EntryShape {
        item: item_shape(entry),
        under: match entry.menuentries {
            Some(under) => Some(items_shape(under@)),
            None => None,
        },
    }
}

/// The shape of a menu.
pub open spec fn menu_shape(menu: Seq<GrubEntry>) -> Seq<EntryShape> {
    menu.map_values(|e: GrubEntry| entry_shape(e))
}

/// The name by which an entry is chosen: its id, or its title if it has no
/// id.
pub open spec fn entry_name(item: ItemShape) -> Seq<char> {
    match item.id {
        Some(id) => id,
        None => item.title,
    }
}

/// Name and title of an entry.
pub open spec fn entry_item(item: ItemShape) -> Item {
    (entry_name(item), item.title)
}

/// The boot entries among the given entries, in order.
pub open spec fn boot_items(entries: Seq<ItemShape>) -> Seq<Item>
    decreases entries.len(),
{
    if entries.len() == 0 {
        Seq::empty()
    } else if entries.last().consequence is Some {
        boot_items(entries.drop_last()).push(entry_item(entries.last()))
    } else {
        boot_items(entries.drop_last())
    }
}

/// The lines that one entry contributes to the menu: itself, if it is a
/// boot entry; a submenu with the boot entries directly under it, if it is
/// a submenu; nothing, if it is neither.
pub open spec fn shown(entry: EntryShape) -> Seq<MenuModel> {
    if entry.item.consequence is Some {
        seq![MenuModel::BootEntry(entry_item(entry.item))]
    } else {
        match entry.under {
            Some(under) => seq![
                MenuModel::SubMenu(entry_name(entry.item), entry.item.title, boot_items(under)),
            ],
            None => Seq::empty(),
        }
    }
}

/// The menu that the given entries make.
pub open spec fn menu_of(entries: Seq<EntryShape>) -> Seq<MenuModel>
    decreases entries.len(),
{
    if entries.len() == 0 {
        Seq::empty()
    } else {
        menu_of(entries.drop_last()) + shown(entries.last())
    }
}

/// The entries that can be chosen by name or by index: each top-level entry
/// that is no submenu, and, in the place of each submenu, the entries
/// directly under it.
pub open spec fn choices(entries: Seq<EntryShape>) -> Seq<ItemShape>
    decreases entries.len(),
{
    if entries.len() == 0 {
        Seq::empty()
    } else {
        choices(entries.drop_last()) + match entries.last().under {
            Some(under) => under,
            None => seq![entries.last().item],
        }
    }
}

/// The name of an entry, in executable form.
pub fn name_of(entry: &GrubEntry) -> (r: &String)
    ensures
        r@ == entry_name(item_shape(*entry)),
{
    match &entry.id {
        Some(id) => id,
        None => &entry.title,
    }
}

/// The boot entries among the given entries, in executable form.
pub fn boot_items_of(entries: &Vec<GrubEntry>) -> (items: Vec<(String, String)>)
    ensures
        items.deep_view() == boot_items(items_shape(entries@)),
{
    let mut items: Vec<(String, String)> = Vec::new();
    let ghost shapes = items_shape(entries@);
    let mut i: usize = 0;
    proof {
        assert(shapes.take(0) =~= Seq::<ItemShape>::empty());
        assert(items.deep_view() =~= Seq::<Item>::empty());
    }
    while i < entries.len()
        invariant
            i <= entries.len(),
            shapes == items_shape(entries@),
            items.deep_view() == boot_items(shapes.take(i as int)),
        decreases entries.len() - i,
    {
        proof {
            assert(shapes.take(i + 1).drop_last() =~= shapes.take(i as int));
            assert(shapes.take(i + 1).last() == item_shape(entries@[i as int]));
        }
        if entries[i].consequence.is_some() {
            let ghost before = items.deep_view();
            let name = name_of(&entries[i]).clone();
            let title = entries[i].title.clone();
            items.push((name, title));
            proof {
                assert(items.deep_view() =~= before.push((name@, title@)));
            }
        }
        i += 1;
    }
    proof {
        assert(shapes.take(entries.len() as int) =~= shapes);
    }
    items
}

/// The menu that the given entries make, in executable form.
pub fn menu_from(entries: &Vec<GrubEntry>) -> (menu: Vec<MenuEntry>)
    ensures
        menu_view(menu@) == menu_of(menu_shape(entries@)),
{
    let mut menu: Vec<MenuEntry> = Vec::new();
    let ghost shapes = menu_shape(entries@);
    let mut i: usize = 0;
    proof {
        assert(shapes.take(0) =~= Seq::<EntryShape>::empty());
        assert(menu_view(menu@) =~= Seq::<MenuModel>::empty());
    }
    while i < entries.len()
        invariant
            i <= entries.len(),
            shapes == menu_shape(entries@),
            menu_view(menu@) == menu_of(shapes.take(i as int)),
        decreases entries.len() - i,
    {
        let ghost before = menu_view(menu@);
        proof {
            assert(shapes.take(i + 1).drop_last() =~= shapes.take(i as int));
            assert(shapes.take(i + 1).last() == entry_shape(entries@[i as int]));
        }
        let entry = &entries[i];
        if entry.consequence.is_some() {
            let line = MenuEntry::BootEntry((name_of(entry).clone(), entry.title.clone()));
            menu.push(line);
            proof {
                assert(menu_view(menu@) =~= before + shown(entry_shape(*entry)));
            }
        } else {
            match &entry.menuentries {
                Some(under) => {
                    let line = MenuEntry::SubMenu(
                        (name_of(entry).clone(), entry.title.clone(), boot_items_of(under)),
                    );
                    menu.push(line);
                    proof {
                        assert(menu_view(menu@) =~= before + shown(entry_shape(*entry)));
                    }
                },
                None => {
                    proof {
                        assert(before + shown(entry_shape(*entry)) =~= before);
                    }
                },
            }
        }
        i += 1;
    }
    proof {
        assert(shapes.take(entries.len() as int) =~= shapes);
    }
    menu
}

} // verus!
