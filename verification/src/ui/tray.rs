//! The status-bar menu, as `com.canonical.dbusmenu` numbers it.
//!
//! Items are numbered from 1; 0 is the invisible root. The D-Bus plumbing and
//! the GVariant encoding belong to the application; which entry an id names,
//! what a click does, and which rows a property request gets are decided
//! here.

use vstd::prelude::*;
use vstd::view::View as _;

use crate::text::same_text;

verus! {

/// One row of the tray menu.
#[derive(Debug, Clone, PartialEq, Eq)]
pub enum MenuEntry {
    /// A clickable row; `action` is handed to the caller when it is clicked.
    Item { label: String, action: String, enabled: bool },
    /// A non-interactive line, for status.
    Info { label: String },
    Separator,
}

impl MenuEntry {
    pub fn item(label: &str, action: &str) -> (e: Self)
        ensures
            e matches MenuEntry::Item { label: l, action: a, enabled } && l@ == label@ && a@ == action@
                && enabled,
    {
        MenuEntry::Item { label: label.to_owned(), action: action.to_owned(), enabled: true }
    }

    pub fn disabled(label: &str, action: &str) -> (e: Self)
        ensures
            e matches MenuEntry::Item { label: l, action: a, enabled } && l@ == label@ && a@ == action@
                && !enabled,
    {
        MenuEntry::Item { label: label.to_owned(), action: action.to_owned(), enabled: false }
    }

    pub fn info(label: &str) -> (e: Self)
        ensures
            e matches MenuEntry::Info { label: l } && l@ == label@,
    {
        MenuEntry::Info { label: label.to_owned() }
    }
}

/// What the tray should show right now: the rows, and which icon to wear.
#[derive(Debug, Clone, PartialEq, Eq)]
pub struct View {
    pub entries: Vec<MenuEntry>,
    pub icon_name: String,
}

/// The position of the entry with dbusmenu id `id`, if there is one: id `i + 1`
/// is entry `i`, and 0 is the root, not an entry.
pub open spec fn entry_index(len: int, id: int) -> Option<int> {
    if 1 <= id <= len {
        Some(id - 1)
    } else {
        None
    }
}

/// The entry with dbusmenu id `id`.
pub fn entry_at(entries: &[MenuEntry], id: i32) -> (e: Option<&MenuEntry>)
    requires
        id > i32::MIN,
    ensures
        match entry_index(entries@.len() as int, id as int) {
            Some(i) => e == Some(&entries@[i]),
            None => e is None,
        },
{
    let shifted = id - 1;
    if shifted < 0 {
        return None;
    }
    let index = shifted as usize;
    if index < entries.len() {
        Some(&entries[index])
    } else {
        None
    }
}

/// The action a click on id `id` dispatches: that of an enabled item, and
/// nothing for a disabled item, an info row, a separator or an id that names
/// no entry.
pub fn clicked_action(entries: &[MenuEntry], id: i32) -> (a: Option<String>)
    requires
        id > i32::MIN,
    ensures
        match entry_index(entries@.len() as int, id as int) {
            Some(i) => match entries@[i] {
                MenuEntry::Item { action, enabled, .. } => if enabled {
                    a matches Some(s) && s@ == action@
                } else {
                    a is None
                },
                _ => a is None,
            },
            None => a is None,
        },
{
    match entry_at(entries, id) {
        Some(MenuEntry::Item { action, enabled: true, .. }) => Some(action.clone()),
        _ => None,
    }
}

/// The ids a `GetGroupProperties` request is answered for, in order: every
/// entry when the request names none, and otherwise the ids it names that
/// belong to an entry.
pub fn property_ids(count: usize, ids: &[i32]) -> (r: Vec<i32>)
    requires
        count <= i32::MAX,
        forall|k: int| 0 <= k < ids@.len() ==> #[trigger] ids@[k] > i32::MIN,
    ensures
        ids@.len() == 0 ==> r@ == Seq::new(count as nat, |k: int| (k + 1) as i32),
        ids@.len() > 0 ==> r@ == ids@.filter(|id: i32| 1 <= id <= count),
{
    let mut r: Vec<i32> = Vec::new();
    if ids.len() == 0 {
        let mut k: usize = 0;
        while k < count
            invariant
                k <= count <= i32::MAX,
                r@ == Seq::new(k as nat, |j: int| (j + 1) as i32),
            decreases count - k,
        {
            r.push((k + 1) as i32);
            assert(r@ =~= Seq::new((k + 1) as nat, |j: int| (j + 1) as i32));
            k += 1;
        }
        return r;
    }
    let mut k: usize = 0;
    while k < ids.len()
        invariant
            k <= ids@.len(),
            r@ == ids@.take(k as int).filter(|id: i32| 1 <= id <= count),
        decreases ids.len() - k,
    {
        let id = ids[k];
        proof {
            reveal_with_fuel(Seq::filter, 1);
            assert(ids@.take(k + 1).drop_last() =~= ids@.take(k as int));
        }
        if 1 <= id && (id as usize) <= count {
            r.push(id);
        }
        k += 1;
    }
    assert(ids@.take(ids@.len() as int) =~= ids@);
    r
}

/// Where the menu object is exported.
pub const MENU_PATH: &'static str = "/StatusNotifierMenu";

/// Where the item object is exported.
pub const ITEM_PATH: &'static str = "/StatusNotifierItem";

/// The well-known name a tray host claims.
pub const WATCHER_NAME: &'static str = "org.kde.StatusNotifierWatcher";

/// A property value, in the D-Bus type it is sent as.
#[derive(Debug, Clone, PartialEq, Eq)]
pub enum Prop {
    /// `s`
    Text(String),
    /// `b`
    Flag(bool),
    /// `u`
    Number(u32),
    /// `o`: an object path is a distinct type from a string on the bus.
    ObjectPath(String),
    /// `as`
    TextList(Vec<String>),
}

/// A property value, as contracts speak of it.
pub enum PropValue {
    Text(Seq<char>),
    Flag(bool),
    Number(u32),
    ObjectPath(Seq<char>),
    TextList(Seq<Seq<char>>),
}

impl Prop {
    pub open spec fn value(self) -> PropValue {
        match self {
            Prop::Text(s) => PropValue::Text(s@),
            Prop::Flag(b) => PropValue::Flag(b),
            Prop::Number(n) => PropValue::Number(n),
            Prop::ObjectPath(p) => PropValue::ObjectPath(p@),
            Prop::TextList(v) => PropValue::TextList(v@.map_values(|t: String| t@)),
        }
    }

    /// A copy of the value.
    pub fn duplicate(&self) -> (r: Prop)
        ensures
            r.value() == self.value(),
    {
        match self {
            Prop::Text(s) => Prop::Text(s.clone()),
            Prop::Flag(b) => Prop::Flag(*b),
            Prop::Number(n) => Prop::Number(*n),
            Prop::ObjectPath(p) => Prop::ObjectPath(p.clone()),
            Prop::TextList(v) => {
                let mut out: Vec<String> = Vec::new();
                let mut k: usize = 0;
                while k < v.len()
                    invariant
                        k <= v@.len(),
                        out@.len() == k,
                        forall|j: int| 0 <= j < k ==> #[trigger] out@[j]@ == v@[j]@,
                    decreases v.len() - k,
                {
                    out.push(v[k].clone());
                    k += 1;
                }
                assert(out@.map_values(|t: String| t@) =~= v@.map_values(|t: String| t@));
                Prop::TextList(out)
            },
        }
    }
}

/// What the `org.kde.StatusNotifierItem` object answers for a property.
pub open spec fn spec_item_property(name: Seq<char>, icon_name: Seq<char>) -> PropValue {
    if name == "Category"@ {
        PropValue::Text("SystemServices"@)
    } else if name == "Id"@ {
        PropValue::Text(crate::APP_ID@)
    } else if name == "Title"@ {
        PropValue::Text("Scribe"@)
    } else if name == "Status"@ {
        PropValue::Text("Active"@)
    } else if name == "IconName"@ {
        PropValue::Text(icon_name)
    } else if name == "ItemIsMenu"@ {
        PropValue::Flag(true)
    } else if name == "Menu"@ {
        PropValue::ObjectPath(MENU_PATH@)
    } else {
        PropValue::Text(Seq::empty())
    }
}

/// A property of the tray item.
///
/// The status is always `Active`: GNOME's appindicator extension hides a
/// passive item, and the icon would vanish exactly when it is wanted. The
/// item is a menu, so a left click opens it rather than firing `Activate`.
/// Anything unknown is answered with an empty string rather than an error.
pub fn item_property(name: &str, icon_name: &str) -> (p: Prop)
    ensures
        p.value() == spec_item_property(name@, icon_name@),
{
    if same_text(name, "Category") {
        Prop::Text("SystemServices".to_string())
    } else if same_text(name, "Id") {
        Prop::Text(crate::APP_ID.to_string())
    } else if same_text(name, "Title") {
        Prop::Text("Scribe".to_string())
    } else if same_text(name, "Status") {
        Prop::Text("Active".to_string())
    } else if same_text(name, "IconName") {
        Prop::Text(icon_name.to_string())
    } else if same_text(name, "ItemIsMenu") {
        Prop::Flag(true)
    } else if same_text(name, "Menu") {
        Prop::ObjectPath(MENU_PATH.to_string())
    } else {
        Prop::Text(String::new())
    }
}

/// What the `com.canonical.dbusmenu` object answers for a property.
pub open spec fn spec_menu_property(name: Seq<char>) -> PropValue {
    if name == "Version"@ {
        PropValue::Number(3)
    } else if name == "Status"@ {
        PropValue::Text("normal"@)
    } else if name == "TextDirection"@ {
        PropValue::Text("ltr"@)
    } else if name == "IconThemePath"@ {
        PropValue::TextList(Seq::empty())
    } else {
        PropValue::Text(Seq::empty())
    }
}

/// A property of the menu object.
pub fn menu_property(name: &str) -> (p: Prop)
    ensures
        p.value() == spec_menu_property(name@),
{
    if same_text(name, "Version") {
        Prop::Number(3)
    } else if same_text(name, "Status") {
        Prop::Text("normal".to_string())
    } else if same_text(name, "TextDirection") {
        Prop::Text("ltr".to_string())
    } else if same_text(name, "IconThemePath") {
        let v: Vec<String> = Vec::new();
        proof {
            assert(v@.map_values(|t: String| t@) =~= Seq::<Seq<char>>::empty());
        }
        Prop::TextList(v)
    } else {
        Prop::Text(String::new())
    }
}

/// The properties of one row, keyed by name: a separator is typed rather
/// than labelled, an info row is shown but not clickable, and every row is
/// visible.
pub open spec fn spec_entry_properties(entry: MenuEntry) -> Seq<(Seq<char>, PropValue)> {
    match entry {
        MenuEntry::Separator => seq![("type"@, PropValue::Text("separator"@)), ("visible"@, PropValue::Flag(true))],
        MenuEntry::Info { label } => seq![
            ("label"@, PropValue::Text(label@)),
            ("enabled"@, PropValue::Flag(false)),
            ("visible"@, PropValue::Flag(true)),
        ],
        MenuEntry::Item { label, enabled, .. } => seq![
            ("label"@, PropValue::Text(label@)),
            ("enabled"@, PropValue::Flag(enabled)),
            ("visible"@, PropValue::Flag(true)),
        ],
    }
}

pub open spec fn pair_view(p: (String, Prop)) -> (Seq<char>, PropValue) {
    (p.0@, p.1.value())
}

/// The `a{sv}` of one row's properties.
pub fn entry_properties(entry: &MenuEntry) -> (props: Vec<(String, Prop)>)
    ensures
        props@.map_values(|p: (String, Prop)| pair_view(p)) == spec_entry_properties(*entry),
{
    let mut props: Vec<(String, Prop)> = Vec::new();
    match entry {
        MenuEntry::Separator => {
            props.push(("type".to_string(), Prop::Text("separator".to_string())));
        },
        MenuEntry::Info { label } => {
            props.push(("label".to_string(), Prop::Text(label.clone())));
            props.push(("enabled".to_string(), Prop::Flag(false)));
        },
        MenuEntry::Item { label, enabled, .. } => {
            props.push(("label".to_string(), Prop::Text(label.clone())));
            props.push(("enabled".to_string(), Prop::Flag(*enabled)));
        },
    }
    props.push(("visible".to_string(), Prop::Flag(true)));
    assert(props@.map_values(|p: (String, Prop)| pair_view(p)) =~= spec_entry_properties(*entry));
    props
}

/// The value a property list gives a name: that of the first pair with the
/// name, if any.
pub open spec fn lookup(props: Seq<(Seq<char>, PropValue)>, name: Seq<char>) -> Option<PropValue>
    decreases props.len(),
{
    if props.len() == 0 {
        None
    } else if props[0].0 == name {
        Some(props[0].1)
    } else {
        lookup(props.drop_first(), name)
    }
}

/// One property of the row with dbusmenu id `id`: nothing for an id that
/// names no row or a name the row does not have.
#[verifier::loop_isolation(false)]
pub fn entry_property(entries: &[MenuEntry], id: i32, name: &str) -> (p: Option<Prop>)
    requires
        id > i32::MIN,
    ensures
        match entry_index(entries@.len() as int, id as int) {
            Some(i) => match (p, lookup(spec_entry_properties(entries@[i]), name@)) {
                (Some(a), Some(b)) => a.value() == b,
                (None, None) => true,
                _ => false,
            },
            None => p is None,
        },
{
    let entry = match entry_at(entries, id) {
        Some(e) => e,
        None => return None,
    };
    let props = entry_properties(entry);
    let ghost all = props@.map_values(|p: (String, Prop)| pair_view(p));
    let mut k: usize = 0;
    assert(all.skip(0) =~= all);
    while k < props.len()
        invariant
            k <= props@.len(),
            all == props@.map_values(|p: (String, Prop)| pair_view(p)),
            lookup(all, name@) == lookup(all.skip(k as int), name@),
        decreases props.len() - k,
    {
        assert(all.skip(k as int).drop_first() =~= all.skip(k + 1));
        assert(all.skip(k as int)[0] == pair_view(props@[k as int]));
        if same_text(props[k].0.as_str(), name) {
            assert(lookup(all.skip(k as int), name@) == Some(props@[k as int].1.value()));
            return Some(props[k].1.duplicate());
        }
        k += 1;
    }
    assert(all.skip(k as int) =~= Seq::<(Seq<char>, PropValue)>::empty());
    None
}

/// A menu row, as contracts speak of it.
pub enum EntryValue {
    Item { label: Seq<char>, action: Seq<char>, enabled: bool },
    Info { label: Seq<char> },
    Separator,
}

pub open spec fn entry_value(e: MenuEntry) -> EntryValue {
    match e {
        MenuEntry::Item { label, action, enabled } => EntryValue::Item {
            label: label@,
            action: action@,
            enabled,
        },
        MenuEntry::Info { label } => EntryValue::Info { label: label@ },
        MenuEntry::Separator => EntryValue::Separator,
    }
}

pub open spec fn entries_value(entries: Seq<MenuEntry>) -> Seq<EntryValue> {
    entries.map_values(|e: MenuEntry| entry_value(e))
}

fn same_entry(a: &MenuEntry, b: &MenuEntry) -> (r: bool)
    ensures
        r == (entry_value(*a) == entry_value(*b)),
{
    match (a, b) {
        (
            MenuEntry::Item { label: la, action: aa, enabled: ea },
            MenuEntry::Item { label: lb, action: ab, enabled: eb },
        ) => *la == *lb && *aa == *ab && *ea == *eb,
        (MenuEntry::Info { label: la }, MenuEntry::Info { label: lb }) => *la == *lb,
        (MenuEntry::Separator, MenuEntry::Separator) => true,
        _ => false,
    }
}

fn same_entries(a: &Vec<MenuEntry>, b: &Vec<MenuEntry>) -> (r: bool)
    ensures
        r == (entries_value(a@) == entries_value(b@)),
{
    if a.len() != b.len() {
        assert(entries_value(a@).len() != entries_value(b@).len());
        return false;
    }
    let mut k: usize = 0;
    while k < a.len()
        invariant
            a@.len() == b@.len(),
            k <= a@.len(),
            forall|j: int| 0 <= j < k ==> entry_value(#[trigger] a@[j]) == entry_value(b@[j]),
        decreases a.len() - k,
    {
        if !same_entry(&a[k], &b[k]) {
            assert(entries_value(a@)[k as int] != entries_value(b@)[k as int]);
            return false;
        }
        k += 1;
    }
    assert(entries_value(a@) =~= entries_value(b@));
    true
}

/// What changed when a new view was adopted, so the host is told about that
/// and nothing else.
#[derive(Clone, Copy, Debug, PartialEq, Eq, Structural)]
pub struct Changes {
    /// The icon is different: emit `NewIcon`.
    pub icon: bool,
    /// The rows are different: the revision moved on; emit `LayoutUpdated`.
    pub layout: bool,
}

/// The menu as the host last saw it: its rows, its icon, and the layout
/// revision the host was given.
pub struct Menu {
    entries: Vec<MenuEntry>,
    icon_name: String,
    revision: u32,
}

impl Menu {
    pub closed spec fn entries_view(&self) -> Seq<EntryValue> {
        entries_value(self.entries@)
    }

    pub closed spec fn icon_view(&self) -> Seq<char> {
        self.icon_name@
    }

    pub closed spec fn revision_view(&self) -> u32 {
        self.revision
    }

    /// The menu a tray starts with: the first view, at revision 1.
    pub fn new(view: View) -> (m: Self)
        ensures
            m.entries_view() == entries_value(view.entries@),
            m.icon_view() == view.icon_name@,
            m.revision_view() == 1,
    {
        Menu { entries: view.entries, icon_name: view.icon_name, revision: 1 }
    }

    pub fn entries(&self) -> (e: &[MenuEntry])
        ensures
            entries_value(e@) == self.entries_view(),
    {
        self.entries.as_slice()
    }

    pub fn icon_name(&self) -> (i: &str)
        ensures
            i@ == self.icon_view(),
    {
        self.icon_name.as_str()
    }

    pub fn revision(&self) -> (r: u32)
        ensures
            r == self.revision_view(),
    {
        self.revision
    }

    /// Adopt a new view. The icon is replaced when it differs; the rows are
    /// replaced, and the revision moves on by one (wrapping), only when they
    /// differ.
    pub fn apply(&mut self, view: View) -> (c: Changes)
        ensures
            c.icon == (old(self).icon_view() != view.icon_name@),
            final(self).icon_view() == view.icon_name@,
            c.layout == (old(self).entries_view() != entries_value(view.entries@)),
            final(self).entries_view() == entries_value(view.entries@),
            final(self).revision_view() == if c.layout {
                vstd::wrapping::u32_specs::wrapping_add(old(self).revision_view(), 1)
            } else {
                old(self).revision_view()
            },
    {
        let icon = !(self.icon_name == view.icon_name);
        self.icon_name = view.icon_name;
        if same_entries(&self.entries, &view.entries) {
            return Changes { icon, layout: false };
        }
        self.entries = view.entries;
        self.revision = self.revision.wrapping_add(1);
        Changes { icon, layout: true }
    }
}

} // verus!
