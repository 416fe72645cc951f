//! The tab strip: which tabs are open and which one is active.
//!
//! A table opens once: opening it again focuses its tab. Settings,
//! connection, indexes and roles are singletons. An empty tab that is active
//! is reused by the next thing opened. Closing the active tab focuses the
//! last remaining tab.
//!
//! New tabs take an identifier from the caller, who draws it from the clock
//! and a random number.

use vstd::prelude::*;

use crate::text::{chars_of, parse_u32, parse_unsigned, push_decimal, decimal, str_eq, string_from_chars};

verus! {

/// What a tab shows.
#[derive(Clone, Debug, PartialEq, Eq)]
pub enum TabType {
    Table { name: String, schema: String },
    Empty,
    Settings,
    Connection,
    Indexes,
    Roles,
}

/// An open tab.
#[derive(Clone, Debug, PartialEq, Eq)]
pub struct Tab {
    pub id: String,
    pub label: String,
    pub tab_type: TabType,
}

/// The open tabs, in strip order, and the identifier of the active one.
#[derive(Clone, Debug, PartialEq, Eq)]
pub struct TabStore {
    pub tabs: Vec<Tab>,
    pub active_tab_id: Option<String>,
}

/// The model of a [`TabType`].
pub ghost enum TabKind {
    Table(Seq<char>, Seq<char>),
    Empty,
    Settings,
    Connection,
    Indexes,
    Roles,
}

/// The model of a [`Tab`].
pub ghost struct TabView {
    pub id: Seq<char>,
    pub label: Seq<char>,
    pub kind: TabKind,
}

/// The model of a [`TabStore`].
pub ghost struct TabsView {
    pub tabs: Seq<TabView>,
    pub active: Option<Seq<char>>,
}

impl View for TabType {
    type V = TabKind;

    open spec fn view(&self) -> TabKind {
        match self {
            TabType::Table { name, schema } => TabKind::Table(name@, schema@),
            TabType::Empty => TabKind::Empty,
            TabType::Settings => TabKind::Settings,
            TabType::Connection => TabKind::Connection,
            TabType::Indexes => TabKind::Indexes,
            TabType::Roles => TabKind::Roles,
        }
    }
}

impl View for Tab {
    type V = TabView;

    open spec fn view(&self) -> TabView {
        TabView { id: self.id@, label: self.label@, kind: self.tab_type@ }
    }
}

impl View for TabStore {
    type V = TabsView;

    open spec fn view(&self) -> TabsView {
        TabsView {
            tabs: self.tabs@.map_values(|t: Tab| t@),
            active: match self.active_tab_id {
                Some(id) => Some(id@),
                None => None,
            },
        }
    }
}

/// Whether two kinds are the same variant, whatever their fields.
pub open spec fn same_variant(a: TabKind, b: TabKind) -> bool {
    match (a, b) {
        (TabKind::Table(_, _), TabKind::Table(_, _)) => true,
        (TabKind::Empty, TabKind::Empty) => true,
        (TabKind::Settings, TabKind::Settings) => true,
        (TabKind::Connection, TabKind::Connection) => true,
        (TabKind::Indexes, TabKind::Indexes) => true,
        (TabKind::Roles, TabKind::Roles) => true,
        _ => false,
    }
}

/// The index of the first tab that satisfies `p`.
pub open spec fn first_index(tabs: Seq<TabView>, p: spec_fn(TabView) -> bool) -> Option<int> {
    if exists|i: int| 0 <= i < tabs.len() && p(tabs[i]) {
        Some(
            choose|i: int|
                0 <= i < tabs.len() && p(tabs[i]) && forall|k: int| 0 <= k < i ==> !p(tabs[k]),
        )
    } else {
        None
    }
}

/// The index of the first tab with identifier `id`.
pub open spec fn first_with_id(tabs: Seq<TabView>, id: Seq<char>) -> Option<int> {
    first_index(tabs, |t: TabView| t.id == id)
}

/// The index of the first tab showing table `schema.name`.
pub open spec fn first_table(tabs: Seq<TabView>, name: Seq<char>, schema: Seq<char>) -> Option<
    int,
> {
    first_index(tabs, |t: TabView| t.kind == TabKind::Table(name, schema))
}

/// The index of the first tab of the same variant as `kind`.
pub open spec fn first_of_variant(tabs: Seq<TabView>, kind: TabKind) -> Option<int> {
    first_index(tabs, |t: TabView| same_variant(t.kind, kind))
}

/// The active tab: the first tab whose identifier is the active one.
pub open spec fn active_tab_spec(s: TabsView) -> Option<TabView> {
    match s.active {
        Some(id) => match first_with_id(s.tabs, id) {
            Some(i) => Some(s.tabs[i]),
            None => None,
        },
        None => None,
    }
}

/// The active tab's index where it is empty, so that the next thing opened
/// can take its place.
pub open spec fn reusable_tab(s: TabsView) -> Option<int> {
    match s.active {
        Some(id) => match first_with_id(s.tabs, id) {
            Some(j) => if s.tabs[j].kind == TabKind::Empty {
                Some(j)
            } else {
                None
            },
            None => None,
        },
        None => None,
    }
}

/// Opening something: focus the tab `found` where there is one; otherwise
/// turn the active empty tab into it; otherwise add a tab for it and focus
/// that.
pub open spec fn open_spec(
    s: TabsView,
    found: Option<int>,
    label: Seq<char>,
    kind: TabKind,
    new_id: Seq<char>,
) -> TabsView {
    match found {
        Some(i) => TabsView { active: Some(s.tabs[i].id), ..s },
        None => match reusable_tab(s) {
            Some(j) => TabsView {
                tabs: s.tabs.update(j, TabView { id: s.tabs[j].id, label, kind }),
                ..s
            },
            None => TabsView {
                tabs: s.tabs.push(TabView { id: new_id, label, kind }),
                active: Some(new_id),
            },
        },
    }
}

/// Opening table `schema.name`, labelled with its name.
pub open spec fn open_table_spec(
    s: TabsView,
    name: Seq<char>,
    schema: Seq<char>,
    new_id: Seq<char>,
) -> TabsView {
    open_spec(s, first_table(s.tabs, name, schema), name, TabKind::Table(name, schema), new_id)
}

/// Opening a singleton tab: any tab of the same variant is focused.
pub open spec fn open_singleton_spec(
    s: TabsView,
    kind: TabKind,
    label: Seq<char>,
    new_id: Seq<char>,
) -> TabsView {
    open_spec(s, first_of_variant(s.tabs, kind), label, kind, new_id)
}

/// Closing the tabs with identifier `id`; where the active tab is closed,
/// the last remaining tab becomes active.
pub open spec fn close_spec(s: TabsView, id: Seq<char>) -> TabsView {
    let kept = s.tabs.filter(|t: TabView| t.id != id);
    TabsView {
        tabs: kept,
        active: if s.active == Some(id) {
            if kept.len() > 0 {
                Some(kept.last().id)
            } else {
                None
            }
        } else {
            s.active
        },
    }
}

/// The prefix of an empty tab's label.
pub open spec fn untitled_prefix() -> Seq<char> {
    seq!['U', 'n', 't', 'i', 't', 'l', 'e', 'd', ' ']
}

/// The number an empty tab's label claims: the label after `Untitled `,
/// read as `str::parse::<u32>` reads it.
pub open spec fn untitled_number(label: Seq<char>) -> Option<nat> {
    if label.len() >= 9 && label.take(9) == untitled_prefix() {
        parse_unsigned(label.skip(9), u32::MAX as nat)
    } else {
        None
    }
}

/// Whether some empty tab claims number `n`.
pub open spec fn number_used(tabs: Seq<TabView>, n: nat) -> bool {
    exists|i: int|
        0 <= i < tabs.len() && tabs[i].kind == TabKind::Empty && untitled_number(tabs[i].label)
            == Some(n)
}

/// The label of the next empty tab: `Untitled N` for the least positive `N`
/// no empty tab claims.
pub open spec fn untitled_label(n: nat) -> Seq<char> {
    untitled_prefix() + decimal(n)
}

/// Whether `n` is the least positive number that no empty tab claims.
pub open spec fn least_unused(tabs: Seq<TabView>, n: nat) -> bool {
    n >= 1 && !number_used(tabs, n) && forall|m: nat| 1 <= m < n ==> number_used(tabs, m)
}

/// Opening an empty tab numbered `n` with identifier `new_id`: it is added
/// at the end and focused.
pub open spec fn open_empty_spec(s: TabsView, n: nat, new_id: Seq<char>) -> TabsView {
    TabsView {
        tabs: s.tabs.push(TabView { id: new_id, label: untitled_label(n), kind: TabKind::Empty }),
        active: Some(new_id),
    }
}

/// Whether a kind is one of the singletons: settings, connection, indexes,
/// roles.
pub open spec fn is_singleton(k: TabKind) -> bool {
    k is Settings || k is Connection || k is Indexes || k is Roles
}

/// Whether two different tabs may stand in one strip: their identifiers
/// differ, they do not show the same table, and they are not two of one
/// singleton.
pub open spec fn compatible(a: TabView, b: TabView) -> bool {
    &&& a.id != b.id
    &&& !(a.kind is Table && a.kind == b.kind)
    &&& !(is_singleton(a.kind) && same_variant(a.kind, b.kind))
}

/// Whether every two tabs of the strip are compatible.
pub open spec fn pairwise_compatible(tabs: Seq<TabView>) -> bool {
    forall|i: int, j: int|
        0 <= i < tabs.len() && 0 <= j < tabs.len() && i != j ==> compatible(
            #[trigger] tabs[i],
            #[trigger] tabs[j],
        )
}

/// The strip's invariant: every two tabs are compatible, and the active
/// identifier, where there is one, names an open tab.
pub open spec fn tabs_wf(s: TabsView) -> bool {
    &&& pairwise_compatible(s.tabs)
    &&& match s.active {
        Some(id) => id_in_use(s.tabs, id),
        None => true,
    }
}

/// Whether an identifier is in use.
pub open spec fn id_in_use(tabs: Seq<TabView>, id: Seq<char>) -> bool {
    exists|i: int| 0 <= i < tabs.len() && tabs[i].id == id
}

impl TabType {
    /// An independent copy.
    pub fn copy(&self) -> (r: TabType)
        ensures
            r@ == self@,
    {
        match self {
            TabType::Table { name, schema } => TabType::Table { name: name.clone(), schema: schema.clone() },
            TabType::Empty => TabType::Empty,
            TabType::Settings => TabType::Settings,
            TabType::Connection => TabType::Connection,
            TabType::Indexes => TabType::Indexes,
            TabType::Roles => TabType::Roles,
        }
    }

    /// Whether the two are the same variant, whatever their fields.
    pub fn same_variant(&self, other: &TabType) -> (r: bool)
        ensures
            r == same_variant(self@, other@),
    {
        match (self, other) {
            (TabType::Table { .. }, TabType::Table { .. }) => true,
            (TabType::Empty, TabType::Empty) => true,
            (TabType::Settings, TabType::Settings) => true,
            (TabType::Connection, TabType::Connection) => true,
            (TabType::Indexes, TabType::Indexes) => true,
            (TabType::Roles, TabType::Roles) => true,
            _ => false,
        }
    }

    /// Whether this is the tab kind for table `schema.name`.
    pub fn is_table(&self, name: &str, schema: &str) -> (r: bool)
        ensures
            r == (self@ == TabKind::Table(name@, schema@)),
    {
        match self {
            TabType::Table { name: n, schema: s } => str_eq(n.as_str(), name) && str_eq(
                s.as_str(),
                schema,
            ),
            _ => false,
        }
    }

    /// Whether this is the empty kind.
    pub fn is_empty_tab(&self) -> (r: bool)
        ensures
            r == (self@ == TabKind::Empty),
    {
        matches!(self, TabType::Empty)
    }
}

impl Tab {
    /// An independent copy.
    pub fn copy(&self) -> (r: Tab)
        ensures
            r@ == self@,
    {
        Tab { id: self.id.clone(), label: self.label.clone(), tab_type: self.tab_type.copy() }
    }
}

/// `first_index` is `i` when tab `i` is the first that satisfies `p`.
proof fn lemma_first_index_is(tabs: Seq<TabView>, p: spec_fn(TabView) -> bool, i: int)
    requires
        0 <= i < tabs.len(),
        p(tabs[i]),
        forall|k: int| 0 <= k < i ==> !p(tabs[k]),
    ensures
        first_index(tabs, p) == Some(i),
{
    let w = choose|w: int|
        0 <= w < tabs.len() && p(tabs[w]) && forall|k: int| 0 <= k < w ==> !p(tabs[k]);
    assert(w == i) by {
        if w < i {
            assert(!p(tabs[w]));
        }
        if i < w {
            assert(!p(tabs[i]));
        }
    }
}

/// Some tab satisfies `p` at or before `i`, so a first one exists.
proof fn lemma_least_witness(tabs: Seq<TabView>, p: spec_fn(TabView) -> bool, i: int)
    requires
        0 <= i < tabs.len(),
        p(tabs[i]),
    ensures
        exists|w: int|
            0 <= w < tabs.len() && p(tabs[w]) && forall|k: int| 0 <= k < w ==> !p(tabs[k]),
    decreases i,
{
    if exists|k: int| 0 <= k < i && p(tabs[k]) {
        let k = choose|k: int| 0 <= k < i && p(tabs[k]);
        lemma_least_witness(tabs, p, k);
    } else {
        assert(forall|k: int| 0 <= k < i ==> !p(tabs[k]));
    }
}

/// What `first_index` gives: the first tab that satisfies `p`, or `None`
/// where none does.
pub proof fn lemma_first_index(tabs: Seq<TabView>, p: spec_fn(TabView) -> bool)
    ensures
        match first_index(tabs, p) {
            Some(i) => 0 <= i < tabs.len() && p(tabs[i]) && forall|k: int|
                0 <= k < i ==> !p(tabs[k]),
            None => forall|k: int| 0 <= k < tabs.len() ==> !p(tabs[k]),
        },
{
    if exists|i: int| 0 <= i < tabs.len() && p(tabs[i]) {
        let i = choose|i: int| 0 <= i < tabs.len() && p(tabs[i]);
        lemma_least_witness(tabs, p, i);
    }
}

/// The index of the first tab with identifier `id`.
fn find_id(tabs: &Vec<Tab>, id: &str) -> (r: Option<usize>)
    ensures
        match r {
            Some(i) => i < tabs@.len() && first_with_id(tabs@.map_values(|t: Tab| t@), id@) == Some(
                i as int,
            ),
            None => first_with_id(tabs@.map_values(|t: Tab| t@), id@) is None,
        },
{
    let ghost views = tabs@.map_values(|t: Tab| t@);
    let mut i: usize = 0;
    while i < tabs.len()
        invariant
            i <= tabs@.len(),
            views == tabs@.map_values(|t: Tab| t@),
            forall|k: int| 0 <= k < i ==> views[k].id != id@,
        decreases tabs@.len() - i,
    {
        if str_eq(tabs[i].id.as_str(), id) {
            proof {
                lemma_first_index_is(views, |t: TabView| t.id == id@, i as int);
            }
            return Some(i);
        }
        i = i + 1;
    }
    None
}

/// The index of the first tab showing table `schema.name`.
fn find_table(tabs: &Vec<Tab>, name: &str, schema: &str) -> (r: Option<usize>)
    ensures
        match r {
            Some(i) => i < tabs@.len() && first_table(tabs@.map_values(|t: Tab| t@), name@, schema@)
                == Some(i as int),
            None => first_table(tabs@.map_values(|t: Tab| t@), name@, schema@) is None,
        },
{
    let ghost views = tabs@.map_values(|t: Tab| t@);
    let mut i: usize = 0;
    while i < tabs.len()
        invariant
            i <= tabs@.len(),
            views == tabs@.map_values(|t: Tab| t@),
            forall|k: int| 0 <= k < i ==> views[k].kind != TabKind::Table(name@, schema@),
        decreases tabs@.len() - i,
    {
        if tabs[i].tab_type.is_table(name, schema) {
            proof {
                lemma_first_index_is(views, |t: TabView| t.kind == TabKind::Table(name@, schema@), i as int);
            }
            return Some(i);
        }
        i = i + 1;
    }
    None
}

/// The index of the first tab of the same variant as `kind`.
fn find_variant(tabs: &Vec<Tab>, kind: &TabType) -> (r: Option<usize>)
    ensures
        match r {
            Some(i) => i < tabs@.len() && first_of_variant(tabs@.map_values(|t: Tab| t@), kind@)
                == Some(i as int),
            None => first_of_variant(tabs@.map_values(|t: Tab| t@), kind@) is None,
        },
{
    let ghost views = tabs@.map_values(|t: Tab| t@);
    let mut i: usize = 0;
    while i < tabs.len()
        invariant
            i <= tabs@.len(),
            views == tabs@.map_values(|t: Tab| t@),
            forall|k: int| 0 <= k < i ==> !same_variant(views[k].kind, kind@),
        decreases tabs@.len() - i,
    {
        if tabs[i].tab_type.same_variant(kind) {
            proof {
                lemma_first_index_is(views, |t: TabView| same_variant(t.kind, kind@), i as int);
            }
            return Some(i);
        }
        i = i + 1;
    }
    None
}

impl TabStore {
    /// No tabs, none active.
    pub fn init() -> (s: TabStore)
        ensures
            s@.tabs.len() == 0,
            s@.active is None,
            tabs_wf(s@),
    {
        let s = TabStore { tabs: Vec::new(), active_tab_id: None };
        assert(s@.tabs =~= Seq::<TabView>::empty());
        s
    }

    /// A copy of the active tab, if the active identifier names a tab.
    pub fn active_tab(&self) -> (r: Option<Tab>)
        ensures
            match r {
                Some(t) => active_tab_spec(self@) == Some(t@),
                None => active_tab_spec(self@) is None,
            },
    {
        match &self.active_tab_id {
            None => None,
            Some(id) => match find_id(&self.tabs, id.as_str()) {
                Some(i) => Some(self.tabs[i].copy()),
                None => None,
            },
        }
    }

    /// The index of the active tab where it is empty.
    fn reusable(&self) -> (r: Option<usize>)
        ensures
            match r {
                Some(j) => j < self.tabs@.len() && reusable_tab(self@) == Some(j as int),
                None => reusable_tab(self@) is None,
            },
    {
        match &self.active_tab_id {
            None => None,
            Some(aid) => match find_id(&self.tabs, aid.as_str()) {
                Some(j) => if self.tabs[j].tab_type.is_empty_tab() {
                    Some(j)
                } else {
                    None
                },
                None => None,
            },
        }
    }

    /// Focuses tab `found` where there is one, otherwise reuses the active
    /// empty tab or adds a new one; see [`open_spec`].
    fn open(&mut self, found: Option<usize>, label: String, tab_type: TabType, new_id: String)
        requires
            found matches Some(i) ==> i < old(self).tabs@.len(),
        ensures
            final(self)@ == open_spec(
                old(self)@,
                match found {
                    Some(i) => Some(i as int),
                    None => None,
                },
                label@,
                tab_type@,
                new_id@,
            ),
    {
        match found {
            Some(i) => {
                let id = self.tabs[i].id.clone();
                self.active_tab_id = Some(id);
            },
            None => match self.reusable() {
                Some(j) => {
                    let id = self.tabs[j].id.clone();
                    let ghost before = self@;
                    self.tabs.set(j, Tab { id, label, tab_type });
                    assert(self@.tabs =~= before.tabs.update(
                        j as int,
                        TabView { id: before.tabs[j as int].id, label: label@, kind: tab_type@ },
                    ));
                },
                None => {
                    let ghost before = self@;
                    self.tabs.push(Tab { id: new_id.clone(), label, tab_type });
                    self.active_tab_id = Some(new_id);
                    assert(self@.tabs =~= before.tabs.push(
                        TabView { id: new_id@, label: label@, kind: tab_type@ },
                    ));
                },
            },
        }
    }

    /// Opens table `schema.name`: focuses its tab if it is open, otherwise
    /// reuses the active empty tab, otherwise adds a tab with identifier
    /// `new_id`.
    pub fn open_table_tab(&mut self, name: String, schema: String, new_id: String)
        ensures
            final(self)@ == open_table_spec(old(self)@, name@, schema@, new_id@),
    {
        let found = find_table(&self.tabs, name.as_str(), schema.as_str());
        let label = name.clone();
        self.open(found, label, TabType::Table { name, schema }, new_id);
    }

    /// Opens a singleton tab (settings, connection, indexes, roles): only one
    /// of each variant exists at a time; otherwise as [`Self::open_table_tab`].
    pub fn open_singleton_tab(&mut self, tab_type: TabType, label: &str, new_id: String)
        ensures
            final(self)@ == open_singleton_spec(old(self)@, tab_type@, label@, new_id@),
    {
        let found = find_variant(&self.tabs, &tab_type);
        self.open(found, label.to_owned(), tab_type, new_id);
    }

    /// Opens a new empty tab labelled `Untitled N`, for the least positive
    /// `N` that no empty tab's label claims, with identifier `new_id`, and
    /// focuses it.
    pub fn open_empty_tab(&mut self, new_id: String)
        requires
            old(self).tabs@.len() < u32::MAX,
        ensures
            exists|n: nat|
                least_unused(old(self)@.tabs, n) && final(self)@ == open_empty_spec(
                    old(self)@,
                    n,
                    new_id@,
                ),
    {
        let ghost views = self@.tabs;
        let mut used: Vec<u32> = Vec::new();
        let mut i: usize = 0;
        while i < self.tabs.len()
            invariant
                i <= self.tabs@.len(),
                views == self@.tabs,
                used@.len() <= i,
                forall|k: int| 0 <= k < used@.len() ==> number_used(views, #[trigger] used@[k] as nat),
                forall|k: int, n: nat|
                    0 <= k < i && views[k].kind == TabKind::Empty && untitled_number(views[k].label)
                        == Some(n) ==> used@.contains(n as u32),
            decreases self.tabs@.len() - i,
        {
            if self.tabs[i].tab_type.is_empty_tab() {
                match untitled_number_of(self.tabs[i].label.as_str()) {
                    Some(n) => {
                        let ghost before = used@;
                        used.push(n);
                        proof {
                            assert(views[i as int] == self.tabs@[i as int]@);
                            assert(number_used(views, n as nat));
                            assert(used@[used@.len() - 1] == n);
                            assert forall|x: u32| before.contains(x) implies used@.contains(x) by {
                                let j = choose|j: int| 0 <= j < before.len() && before[j] == x;
                                assert(used@[j] == x);
                            }
                        }
                    },
                    None => {},
                }
            }
            i = i + 1;
        }
        let mut n: u32 = 1;
        while vec_contains(&used, n)
            invariant
                1 <= n,
                n as int <= used@.len() + 1,
                used@.len() < u32::MAX,
                forall|m: u32| 1 <= m < n ==> used@.contains(m),
            decreases used@.len() + 1 - n,
        {
            proof {
                lemma_pigeonhole(used@, n);
            }
            n = n + 1;
        }
        proof {
            assert(!number_used(views, n as nat)) by {
                if number_used(views, n as nat) {
                    let k = choose|k: int|
                        0 <= k < views.len() && views[k].kind == TabKind::Empty && untitled_number(
                            views[k].label,
                        ) == Some(n as nat);
                    assert(used@.contains(n));
                }
            }
            assert forall|m: nat| 1 <= m < n implies number_used(views, m) by {
                assert(used@.contains(m as u32));
                let k = choose|k: int| 0 <= k < used@.len() && used@[k] == m as u32;
                assert(number_used(views, used@[k] as nat));
            }
        }
        let label = untitled_label_text(n);
        let ghost before = self@;
        let ghost id = new_id@;
        self.tabs.push(Tab { id: new_id.clone(), label, tab_type: TabType::Empty });
        self.active_tab_id = Some(new_id);
        proof {
            assert(self@.tabs =~= before.tabs.push(
                TabView { id, label: untitled_label(n as nat), kind: TabKind::Empty },
            ));
            assert(least_unused(views, n as nat));
            assert(self@ == open_empty_spec(before, n as nat, id));
        }
    }

    /// Closes the tabs with identifier `tab_id`. If the active tab was
    /// closed, the last remaining tab becomes active.
    pub fn close_tab(&mut self, tab_id: &str)
        ensures
            final(self)@ == close_spec(old(self)@, tab_id@),
    {
        let ghost start = self@;
        let mut kept: Vec<Tab> = Vec::new();
        let mut i: usize = 0;
        while i < self.tabs.len()
            invariant
                i <= self.tabs@.len(),
                self@ == start,
                kept@.map_values(|t: Tab| t@) == start.tabs.take(i as int).filter(
                    |t: TabView| t.id != tab_id@,
                ),
            decreases self.tabs@.len() - i,
        {
            let ghost prefix = start.tabs.take(i as int);
            proof {
                assert(start.tabs.take(i + 1) =~= prefix.push(start.tabs[i as int]));
                prefix.lemma_filter_push(start.tabs[i as int], |t: TabView| t.id != tab_id@);
            }
            if !str_eq(self.tabs[i].id.as_str(), tab_id) {
                let ghost before = kept@;
                kept.push(self.tabs[i].copy());
                assert(kept@.map_values(|t: Tab| t@) =~= before.map_values(|t: Tab| t@).push(
                    start.tabs[i as int],
                ));
            }
            i = i + 1;
        }
        assert(start.tabs.take(start.tabs.len() as int) =~= start.tabs);
        let was_active = match &self.active_tab_id {
            Some(a) => str_eq(a.as_str(), tab_id),
            None => false,
        };
        if was_active {
            let new_active = if kept.len() > 0 {
                Some(kept[kept.len() - 1].id.clone())
            } else {
                None
            };
            self.active_tab_id = new_active;
        }
        self.tabs = kept;
    }

    /// Closes the active tab, if there is one.
    pub fn close_active_tab(&mut self)
        ensures
            match old(self)@.active {
                Some(id) => final(self)@ == close_spec(old(self)@, id),
                None => final(self)@ == old(self)@,
            },
    {
        match self.active_tab_id.clone() {
            Some(id) => self.close_tab(id.as_str()),
            None => {},
        }
    }

    /// Makes the tab with identifier `tab_id` active.
    pub fn set_active(&mut self, tab_id: &str)
        ensures
            final(self)@ == (TabsView { active: Some(tab_id@), ..old(self)@ }),
    {
        self.active_tab_id = Some(tab_id.to_owned());
    }

    /// Makes the tab at 0-based `index` active, if there is one.
    pub fn switch_to_tab(&mut self, index: usize)
        ensures
            final(self)@ == if index < old(self)@.tabs.len() {
                TabsView { active: Some(old(self)@.tabs[index as int].id), ..old(self)@ }
            } else {
                old(self)@
            },
    {
        if index < self.tabs.len() {
            let id = self.tabs[index].id.clone();
            self.active_tab_id = Some(id);
        }
    }
}

/// Whether `v` holds `x`.
fn vec_contains(v: &Vec<u32>, x: u32) -> (r: bool)
    ensures
        r == v@.contains(x),
{
    let mut i: usize = 0;
    while i < v.len()
        invariant
            i <= v@.len(),
            forall|k: int| 0 <= k < i ==> v@[k] != x,
        decreases v@.len() - i,
    {
        if v[i] == x {
            return true;
        }
        i = i + 1;
    }
    false
}

/// A sequence that holds every one of `1..=n` has at least `n` elements.
proof fn lemma_pigeonhole(s: Seq<u32>, n: u32)
    requires
        forall|m: u32| 1 <= m <= n ==> s.contains(m),
    ensures
        s.len() >= n,
    decreases n,
{
    if n > 0 {
        assert(s.contains(n));
        let i = choose|i: int| 0 <= i < s.len() && s[i] == n;
        let rest = s.remove(i);
        assert forall|m: u32| 1 <= m <= (n - 1) as u32 implies rest.contains(m) by {
            assert(s.contains(m));
            let j = choose|j: int| 0 <= j < s.len() && s[j] == m;
            assert(j != i);
            if j < i {
                assert(rest[j] == m);
            } else {
                assert(rest[j - 1] == m);
            }
        }
        lemma_pigeonhole(rest, (n - 1) as u32);
    }
}

/// The number an empty tab's label claims; see [`untitled_number`].
fn untitled_number_of(label: &str) -> (r: Option<u32>)
    ensures
        match r {
            Some(n) => untitled_number(label@) == Some(n as nat),
            None => untitled_number(label@) is None,
        },
{
    let v = chars_of(label);
    let prefix: Vec<char> = vec!['U', 'n', 't', 'i', 't', 'l', 'e', 'd', ' '];
    if v.len() < 9 {
        return None;
    }
    let mut i: usize = 0;
    while i < 9
        invariant
            i <= 9,
            v@ == label@,
            v@.len() >= 9,
            prefix@ == untitled_prefix(),
            forall|k: int| 0 <= k < i ==> v@[k] == prefix@[k],
        decreases 9 - i,
    {
        if v[i] != prefix[i] {
            assert(v@.take(9)[i as int] != untitled_prefix()[i as int]);
            return None;
        }
        i = i + 1;
    }
    assert(v@.take(9) =~= untitled_prefix());
    let mut rest: Vec<char> = Vec::new();
    let mut k: usize = 9;
    while k < v.len()
        invariant
            9 <= k <= v@.len(),
            rest@ == v@.subrange(9, k as int),
        decreases v@.len() - k,
    {
        rest.push(v[k]);
        assert(v@.subrange(9, k + 1) =~= v@.subrange(9, k as int).push(v@[k as int]));
        k = k + 1;
    }
    assert(rest@ =~= v@.skip(9));
    let s = string_from_chars(rest.as_slice());
    parse_u32(s.as_str())
}

/// `Untitled N`.
fn untitled_label_text(n: u32) -> (r: String)
    ensures
        r@ == untitled_label(n as nat),
{
    let mut v: Vec<char> = vec!['U', 'n', 't', 'i', 't', 'l', 'e', 'd', ' '];
    push_decimal(&mut v, n as u64);
    string_from_chars(v.as_slice())
}

/// Filtering a strip keeps every two of its tabs compatible, and keeps only
/// tabs that were there.
proof fn lemma_filter_compatible(tabs: Seq<TabView>, p: spec_fn(TabView) -> bool)
    requires
        pairwise_compatible(tabs),
    ensures
        pairwise_compatible(tabs.filter(p)),
        forall|i: int| 0 <= i < tabs.filter(p).len() ==> tabs.contains(#[trigger] tabs.filter(p)[i]),
    decreases tabs.len(),
{
    reveal(Seq::filter);
    if tabs.len() > 0 {
        let rest = tabs.drop_last();
        assert(pairwise_compatible(rest)) by {
            assert forall|i: int, j: int|
                0 <= i < rest.len() && 0 <= j < rest.len() && i != j implies compatible(
                #[trigger] rest[i],
                #[trigger] rest[j],
            ) by {
                assert(rest[i] == tabs[i] && rest[j] == tabs[j]);
            }
        }
        lemma_filter_compatible(rest, p);
        let fr = rest.filter(p);
        let f = tabs.filter(p);
        let last = tabs.len() - 1;
        assert forall|i: int| 0 <= i < fr.len() implies exists|k: int|
            0 <= k < last && tabs[k] == #[trigger] fr[i] by {
            assert(rest.contains(fr[i]));
            let k = choose|k: int| 0 <= k < rest.len() && rest[k] == fr[i];
            assert(tabs[k] == rest[k]);
        }
        if p(tabs.last()) {
            assert(f == fr.push(tabs.last()));
            assert forall|i: int, j: int|
                0 <= i < f.len() && 0 <= j < f.len() && i != j implies compatible(
                #[trigger] f[i],
                #[trigger] f[j],
            ) by {
                if i == fr.len() {
                    let k = choose|k: int| 0 <= k < last && tabs[k] == fr[j];
                    assert(compatible(tabs[last], tabs[k]));
                } else if j == fr.len() {
                    let k = choose|k: int| 0 <= k < last && tabs[k] == fr[i];
                    assert(compatible(tabs[k], tabs[last]));
                } else {
                    assert(f[i] == fr[i] && f[j] == fr[j]);
                }
            }
            assert forall|i: int| 0 <= i < f.len() implies tabs.contains(#[trigger] f[i]) by {
                if i == fr.len() {
                    assert(tabs[last] == f[i]);
                } else {
                    let k = choose|k: int| 0 <= k < last && tabs[k] == fr[i];
                    assert(tabs[k] == f[i]);
                }
            }
        } else {
            assert(f == fr);
            assert forall|i: int| 0 <= i < f.len() implies tabs.contains(#[trigger] f[i]) by {
                let k = choose|k: int| 0 <= k < last && tabs[k] == fr[i];
                assert(tabs[k] == f[i]);
            }
        }
    }
}

/// In a strip whose identifiers differ, tab `i` is the first with its own
/// identifier.
proof fn lemma_own_id_first(tabs: Seq<TabView>, i: int)
    requires
        pairwise_compatible(tabs),
        0 <= i < tabs.len(),
    ensures
        first_with_id(tabs, tabs[i].id) == Some(i),
{
    let id = tabs[i].id;
    assert forall|k: int| 0 <= k < i implies !((|t: TabView| t.id == id)(tabs[k])) by {
        assert(compatible(tabs[k], tabs[i]));
    }
    lemma_first_index_is(tabs, |t: TabView| t.id == id, i);
}

/// Replacing the active empty tab `j` of a valid strip by a tab of `kind`
/// that is compatible with every other tab.
proof fn lemma_reuse_wf(s: TabsView, j: int, label: Seq<char>, kind: TabKind)
    requires
        tabs_wf(s),
        reusable_tab(s) == Some(j),
        forall|k: int|
            0 <= k < s.tabs.len() && k != j ==> compatible(
                TabView { id: s.tabs[j].id, label, kind },
                #[trigger] s.tabs[k],
            ) && compatible(s.tabs[k], TabView { id: s.tabs[j].id, label, kind }),
    ensures
        ({
            let r = TabsView {
                tabs: s.tabs.update(j, TabView { id: s.tabs[j].id, label, kind }),
                ..s
            };
            tabs_wf(r) && active_tab_spec(r) == Some(r.tabs[j]) && s.active == Some(s.tabs[j].id)
        }),
{
    let id = s.active->0;
    lemma_first_index(s.tabs, |t: TabView| t.id == id);
    let nt = s.tabs.update(j, TabView { id: s.tabs[j].id, label, kind });
    assert forall|a: int, b: int|
        0 <= a < nt.len() && 0 <= b < nt.len() && a != b implies compatible(
        #[trigger] nt[a],
        #[trigger] nt[b],
    ) by {
        if a != j && b != j {
            assert(compatible(s.tabs[a], s.tabs[b]));
        }
    }
    assert(nt[j].id == id);
    lemma_own_id_first(nt, j);
}

/// Adding a tab with an unused identifier that is compatible with every tab
/// of a valid strip, and focusing it.
proof fn lemma_push_wf(s: TabsView, t: TabView)
    requires
        tabs_wf(s),
        forall|k: int|
            0 <= k < s.tabs.len() ==> compatible(t, #[trigger] s.tabs[k]) && compatible(
                s.tabs[k],
                t,
            ),
    ensures
        ({
            let r = TabsView { tabs: s.tabs.push(t), active: Some(t.id) };
            tabs_wf(r) && active_tab_spec(r) == Some(t)
        }),
{
    let nt = s.tabs.push(t);
    assert forall|a: int, b: int|
        0 <= a < nt.len() && 0 <= b < nt.len() && a != b implies compatible(
        #[trigger] nt[a],
        #[trigger] nt[b],
    ) by {
        if a < s.tabs.len() && b < s.tabs.len() {
            assert(compatible(s.tabs[a], s.tabs[b]));
        } else if a < s.tabs.len() {
            assert(compatible(s.tabs[a], t));
        } else {
            assert(compatible(t, s.tabs[b]));
        }
    }
    assert(nt[s.tabs.len() as int] == t);
    lemma_own_id_first(nt, s.tabs.len() as int);
}

/// Opening a table keeps the strip valid, and afterwards the active tab
/// shows that table, given an identifier for a new tab that no tab has.
pub proof fn law_open_table(s: TabsView, name: Seq<char>, schema: Seq<char>, new_id: Seq<char>)
    requires
        tabs_wf(s),
        !id_in_use(s.tabs, new_id),
     ensures
        tabs_wf(open_table_spec(s, name, schema, new_id)),
        active_tab_spec(open_table_spec(s, name, schema, new_id)) matches Some(t) && t.kind
            == TabKind::Table(name, schema),
{
    let kind = TabKind::Table(name, schema);
    lemma_first_index(s.tabs, |t: TabView| t.kind == kind);
    match first_table(s.tabs, name, schema) {
        Some(i) => {
            lemma_own_id_first(s.tabs, i);
        },
        None => {
            assert(forall|k: int| 0 <= k < s.tabs.len() ==> s.tabs[k].kind != kind);
            match reusable_tab(s) {
                Some(j) => {
                    lemma_first_index(s.tabs, |t: TabView| t.id == s.active->0);
                    assert forall|k: int| 0 <= k < s.tabs.len() && k != j implies compatible(
                        TabView { id: s.tabs[j].id, label: name, kind },
                        #[trigger] s.tabs[k],
                    ) && compatible(s.tabs[k], TabView { id: s.tabs[j].id, label: name, kind }) by {
                        assert(compatible(s.tabs[k], s.tabs[j]));
                        assert(compatible(s.tabs[j], s.tabs[k]));
                    }
                    lemma_reuse_wf(s, j, name, kind);
                },
                None => {
                    let t = TabView { id: new_id, label: name, kind };
                    assert forall|k: int| 0 <= k < s.tabs.len() implies compatible(
                        t,
                        #[trigger] s.tabs[k],
                    ) && compatible(s.tabs[k], t) by {
                        assert(s.tabs[k].id != new_id);
                    }
                    lemma_push_wf(s, t);
                },
            }
        },
    }
}

/// Opening a singleton keeps the strip valid, and afterwards the active tab
/// is that singleton, given an identifier for a new tab that no tab has.
pub proof fn law_open_singleton(s: TabsView, kind: TabKind, label: Seq<char>, new_id: Seq<char>)
    requires
        tabs_wf(s),
        is_singleton(kind),
        !id_in_use(s.tabs, new_id),
    ensures
        tabs_wf(open_singleton_spec(s, kind, label, new_id)),
        active_tab_spec(open_singleton_spec(s, kind, label, new_id)) matches Some(t) && t.kind
            == kind,
{
    lemma_first_index(s.tabs, |t: TabView| same_variant(t.kind, kind));
    match first_of_variant(s.tabs, kind) {
        Some(i) => {
            lemma_own_id_first(s.tabs, i);
        },
        None => {
            assert(forall|k: int| 0 <= k < s.tabs.len() ==> !same_variant(s.tabs[k].kind, kind));
            match reusable_tab(s) {
                Some(j) => {
                    lemma_first_index(s.tabs, |t: TabView| t.id == s.active->0);
                    assert forall|k: int| 0 <= k < s.tabs.len() && k != j implies compatible(
                        TabView { id: s.tabs[j].id, label, kind },
                        #[trigger] s.tabs[k],
                    ) && compatible(s.tabs[k], TabView { id: s.tabs[j].id, label, kind }) by {
                        assert(compatible(s.tabs[k], s.tabs[j]));
                        assert(!same_variant(s.tabs[k].kind, kind));
                    }
                    lemma_reuse_wf(s, j, label, kind);
                },
                None => {
                    let t = TabView { id: new_id, label, kind };
                    assert forall|k: int| 0 <= k < s.tabs.len() implies compatible(
                        t,
                        #[trigger] s.tabs[k],
                    ) && compatible(s.tabs[k], t) by {
                        assert(s.tabs[k].id != new_id);
                        assert(!same_variant(s.tabs[k].kind, kind));
                    }
                    lemma_push_wf(s, t);
                },
            }
        },
    }
}

/// Opening an empty tab keeps the strip valid and focuses the new tab,
/// given an identifier that no tab has.
pub proof fn law_open_empty(s: TabsView, n: nat, new_id: Seq<char>)
    requires
        tabs_wf(s),
        !id_in_use(s.tabs, new_id),
    ensures
        tabs_wf(open_empty_spec(s, n, new_id)),
        active_tab_spec(open_empty_spec(s, n, new_id)) == Some(
            TabView { id: new_id, label: untitled_label(n), kind: TabKind::Empty },
        ),
{
    let t = TabView { id: new_id, label: untitled_label(n), kind: TabKind::Empty };
    assert forall|k: int| 0 <= k < s.tabs.len() implies compatible(t, #[trigger] s.tabs[k])
        && compatible(s.tabs[k], t) by {
        assert(s.tabs[k].id != new_id);
    }
    lemma_push_wf(s, t);
}

/// Closing keeps the strip valid: no tab with that identifier is left,
/// every other tab stays, and the active identifier still names an open
/// tab.
pub proof fn law_close(s: TabsView, id: Seq<char>)
    requires
        tabs_wf(s),
    ensures
        tabs_wf(close_spec(s, id)),
        !id_in_use(close_spec(s, id).tabs, id),
        forall|k: int|
            0 <= k < s.tabs.len() && s.tabs[k].id != id ==> close_spec(s, id).tabs.contains(
                #[trigger] s.tabs[k],
            ),
{
    let p = |t: TabView| t.id != id;
    let kept = s.tabs.filter(p);
    lemma_filter_compatible(s.tabs, p);
    assert forall|k: int| 0 <= k < kept.len() implies (#[trigger] kept[k]).id != id by {
        s.tabs.lemma_filter_pred(p, k);
    }
    assert forall|k: int| 0 <= k < s.tabs.len() && s.tabs[k].id != id implies kept.contains(
        #[trigger] s.tabs[k],
    ) by {
        s.tabs.lemma_filter_contains(p, k);
    }
    match s.active {
        Some(a) => {
            if a != id {
                let k = choose|k: int| 0 <= k < s.tabs.len() && s.tabs[k].id == a;
                assert(kept.contains(s.tabs[k]));
                let m = choose|m: int| 0 <= m < kept.len() && kept[m] == s.tabs[k];
                assert(kept[m].id == a);
            } else if kept.len() > 0 {
                assert(kept[kept.len() - 1].id == kept.last().id);
            }
        },
        None => {},
    }
}

/// Opening a table a second time changes nothing: the first opening left
/// its tab in place and focused.
pub proof fn law_open_table_twice(
    s: TabsView,
    name: Seq<char>,
    schema: Seq<char>,
    id1: Seq<char>,
    id2: Seq<char>,
)
    ensures
        open_table_spec(open_table_spec(s, name, schema, id1), name, schema, id2)
            == open_table_spec(s, name, schema, id1),
{
    let kind = TabKind::Table(name, schema);
    let p = |t: TabView| t.kind == kind;
    let r = open_table_spec(s, name, schema, id1);
    lemma_first_index(s.tabs, p);
    match first_table(s.tabs, name, schema) {
        Some(i) => {
            assert(r.tabs == s.tabs);
        },
        None => {
            match reusable_tab(s) {
                Some(j) => {
                    lemma_first_index(s.tabs, |t: TabView| t.id == s.active->0);
                    assert forall|k: int| 0 <= k < j implies !p(r.tabs[k]) by {
                        assert(r.tabs[k] == s.tabs[k]);
                    }
                    lemma_first_index_is(r.tabs, p, j);
                },
                None => {
                    let last = s.tabs.len() as int;
                    assert forall|k: int| 0 <= k < last implies !p(r.tabs[k]) by {
                        assert(r.tabs[k] == s.tabs[k]);
                    }
                    lemma_first_index_is(r.tabs, p, last);
                },
            }
        },
    }
}

/// Switching by index keeps the strip valid, and afterwards the active tab
/// is the tab at that index, where there is one.
pub proof fn law_switch(s: TabsView, index: int)
    requires
        tabs_wf(s),
    ensures
        tabs_wf(
            if 0 <= index < s.tabs.len() {
                TabsView { active: Some(s.tabs[index].id), ..s }
            } else {
                s
            },
        ),
        0 <= index < s.tabs.len() ==> active_tab_spec(
            TabsView { active: Some(s.tabs[index].id), ..s },
        ) == Some(s.tabs[index]),
{
    if 0 <= index < s.tabs.len() {
        lemma_own_id_first(s.tabs, index);
    }
}

} // verus!
