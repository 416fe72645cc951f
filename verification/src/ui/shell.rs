//! The application shell: the keyboard shortcuts for tabs, what the content
//! area shows for the active tab, and the sidebar's entries.

use vstd::prelude::*;

use crate::text::{chars_of, parse_unsigned, parse_usize, str_eq};
use crate::ui::tabs::{
    active_tab_spec, open_empty_spec, open_singleton_spec, least_unused, close_spec, Tab,
    TabKind, TabStore, TabType, TabsView,
};

verus! {

/// A keyboard shortcut of the tab strip.
#[derive(Clone, Copy, Debug, PartialEq, Eq, Structural)]
pub enum Shortcut {
    /// Cmd/Ctrl + T: a new empty tab.
    NewTab,
    /// Cmd/Ctrl + W: close the active tab.
    CloseTab,
    /// Cmd/Ctrl + 1-9: the tab at this 0-based index.
    SwitchTo(usize),
}

/// The shortcut a key press stands for: none without the modifier; `t` and
/// `w`; a digit from 1 to 9 picks the tab at one less.
pub open spec fn shortcut_spec(key: Seq<char>, modifier: bool) -> Option<Shortcut> {
    if !modifier {
        None
    } else if key == "t"@ {
        Some(Shortcut::NewTab)
    } else if key == "w"@ {
        Some(Shortcut::CloseTab)
    } else {
        match parse_unsigned(key, usize::MAX as nat) {
            Some(n) => if 1 <= n <= 9 {
                Some(Shortcut::SwitchTo((n - 1) as usize))
            } else {
                None
            },
            None => None,
        }
    }
}

/// Whether the shortcut modifier is held: Cmd on a Mac, Ctrl elsewhere.
pub fn modifier_held(is_mac: bool, meta_key: bool, ctrl_key: bool) -> (r: bool)
    ensures
        r == if is_mac {
            meta_key
        } else {
            ctrl_key
        },
{
    if is_mac {
        meta_key
    } else {
        ctrl_key
    }
}

/// The shortcut a key press stands for; see [`shortcut_spec`].
pub fn shortcut_for(key: &str, modifier: bool) -> (r: Option<Shortcut>)
    ensures
        r == shortcut_spec(key@, modifier),
{
    if !modifier {
        None
    } else if str_eq(key, "t") {
        Some(Shortcut::NewTab)
    } else if str_eq(key, "w") {
        Some(Shortcut::CloseTab)
    } else {
        match parse_usize(key) {
            Some(n) => if 1 <= n && n <= 9 {
                Some(Shortcut::SwitchTo(n - 1))
            } else {
                None
            },
            None => None,
        }
    }
}

/// Carries out a shortcut on the tab strip; a new tab takes identifier
/// `new_id`.
pub fn apply_shortcut(store: &mut TabStore, shortcut: Shortcut, new_id: String)
    requires
        old(store).tabs@.len() < u32::MAX,
    ensures
        match shortcut {
            Shortcut::NewTab => exists|n: nat|
                least_unused(old(store)@.tabs, n) && final(store)@ == open_empty_spec(
                    old(store)@,
                    n,
                    new_id@,
                ),
            Shortcut::CloseTab => match old(store)@.active {
                Some(id) => final(store)@ == close_spec(old(store)@, id),
                None => final(store)@ == old(store)@,
            },
            Shortcut::SwitchTo(i) => final(store)@ == if i < old(store)@.tabs.len() {
                TabsView { active: Some(old(store)@.tabs[i as int].id), ..old(store)@ }
            } else {
                old(store)@
            },
        },
{
    match shortcut {
        Shortcut::NewTab => store.open_empty_tab(new_id),
        Shortcut::CloseTab => store.close_active_tab(),
        Shortcut::SwitchTo(i) => store.switch_to_tab(i),
    }
}

/// What the content area shows.
pub enum ShellPage {
    /// No tab is active.
    Welcome,
    EmptyTab,
    Connection,
    Table { name: String, schema: String },
    Settings,
    Indexes,
    Roles,
}

/// What the content area shows for the active tab.
pub fn shell_page(store: &TabStore) -> (r: ShellPage)
    ensures
        match active_tab_spec(store@) {
            None => r is Welcome,
            Some(t) => match t.kind {
                TabKind::Empty => r is EmptyTab,
                TabKind::Connection => r is Connection,
                TabKind::Table(n, s) => r matches ShellPage::Table { name, schema } && name@ == n
                    && schema@ == s,
                TabKind::Settings => r is Settings,
                TabKind::Indexes => r is Indexes,
                TabKind::Roles => r is Roles,
            },
        },
{
    match store.active_tab() {
        None => ShellPage::Welcome,
        Some(tab) => match tab.tab_type {
            TabType::Empty => ShellPage::EmptyTab,
            TabType::Connection => ShellPage::Connection,
            TabType::Table { name, schema } => ShellPage::Table { name, schema },
            TabType::Settings => ShellPage::Settings,
            TabType::Indexes => ShellPage::Indexes,
            TabType::Roles => ShellPage::Roles,
        },
    }
}

/// An entry of the sidebar that opens a singleton tab.
#[derive(Clone, Copy, Debug, PartialEq, Eq, Structural)]
pub enum SidebarEntry {
    Indexes,
    Roles,
    Connection,
    Settings,
}

/// The tab an entry opens and its label.
pub open spec fn entry_tab(e: SidebarEntry) -> (TabKind, Seq<char>) {
    match e {
        SidebarEntry::Indexes => (TabKind::Indexes, "Indexes"@),
        SidebarEntry::Roles => (TabKind::Roles, "Roles"@),
        SidebarEntry::Connection => (TabKind::Connection, "Connection"@),
        SidebarEntry::Settings => (TabKind::Settings, "Settings"@),
    }
}

/// Opens the singleton tab of a sidebar entry, labelled with its name.
pub fn open_entry(store: &mut TabStore, entry: SidebarEntry, new_id: String)
    ensures
        final(store)@ == open_singleton_spec(
            old(store)@,
            entry_tab(entry).0,
            entry_tab(entry).1,
            new_id@,
        ),
{
    match entry {
        SidebarEntry::Indexes => store.open_singleton_tab(TabType::Indexes, "Indexes", new_id),
        SidebarEntry::Roles => store.open_singleton_tab(TabType::Roles, "Roles", new_id),
        SidebarEntry::Connection => store.open_singleton_tab(
            TabType::Connection,
            "Connection",
            new_id,
        ),
        SidebarEntry::Settings => store.open_singleton_tab(TabType::Settings, "Settings", new_id),
    }
}

/// What the sidebar's table list shows.
#[derive(Clone, Copy, Debug, PartialEq, Eq, Structural)]
pub enum SidebarTables {
    Loading,
    NoTables,
    List,
}

/// What the sidebar's table list shows: a spinner while loading, a notice
/// where there are no tables, otherwise the tables.
pub fn sidebar_tables(is_loading: bool, table_count: usize) -> (r: SidebarTables)
    ensures
        r == if is_loading {
            SidebarTables::Loading
        } else if table_count == 0 {
            SidebarTables::NoTables
        } else {
            SidebarTables::List
        },
{
    if is_loading {
        SidebarTables::Loading
    } else if table_count == 0 {
        SidebarTables::NoTables
    } else {
        SidebarTables::List
    }
}

/// The classes of a tab in the strip: `tab active` for the active one,
/// `tab` otherwise.
pub fn tab_class(store: &TabStore, tab: &Tab) -> (r: &'static str)
    ensures
        r@ == if store@.active == Some(tab@.id) {
            "tab active"@
        } else {
            "tab"@
        },
{
    let active = match &store.active_tab_id {
        Some(a) => str_eq(a.as_str(), tab.id.as_str()),
        None => false,
    };
    if active {
        "tab active"
    } else {
        "tab"
    }
}

/// Whether text `t` holds `pat` somewhere.
pub open spec fn holds_text(t: Seq<char>, pat: Seq<char>) -> bool {
    exists|i: int| 0 <= i <= t.len() - pat.len() && #[trigger] t.subrange(i, i + pat.len()) == pat
}

/// Whether the browser's platform string names a Mac: it holds `Mac`.
pub fn is_mac_platform(platform: &str) -> (r: bool)
    ensures
        r == holds_text(platform@, "Mac"@),
{
    proof {
        reveal_strlit("Mac");
    }
    let v = chars_of(platform);
    if v.len() < 3 {
        return false;
    }
    let last = v.len() - 2;
    let mut i: usize = 0;
    while i < last
        invariant
            v@ == platform@,
            v@.len() >= 3,
            last == v@.len() - 2,
            i <= last,
            forall|j: int| 0 <= j < i ==> #[trigger] v@.subrange(j, j + 3) != "Mac"@,
        decreases last - i,
    {
        proof {
            reveal_strlit("Mac");
        }
        if v[i] == 'M' && v[i + 1] == 'a' && v[i + 2] == 'c' {
            assert(v@.subrange(i as int, i + 3) =~= "Mac"@);
            return true;
        }
        assert(v@.subrange(i as int, i + 3)[0] == v@[i as int]);
        assert(v@.subrange(i as int, i + 3)[1] == v@[i + 1]);
        assert(v@.subrange(i as int, i + 3)[2] == v@[i + 2]);
        i = i + 1;
    }
    false
}

/// Whether a mouse button press on the title bar starts dragging the
/// window: only the main button does.
pub fn starts_window_drag(button: i16) -> (r: bool)
    ensures
        r == (button == 0),
{
    button == 0
}

} // verus!
