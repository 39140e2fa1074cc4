//! The tab bar: a home tab that is always first, at most one settings tab,
//! and at most one terminal tab per session name.

use vstd::prelude::*;

verus! {

/// What a tab shows.
pub enum Page {
    Home,
    Settings,
    /// A terminal for the session of this name.
    Terminal(String),
}

/// The mathematical form of a `Page`.
pub enum PageView {
    Home,
    Settings,
    Terminal(Seq<char>),
}

impl View for Page {
    type V = PageView;

    open spec fn view(&self) -> PageView {
        match self {
            Page::Home => PageView::Home,
            Page::Settings => PageView::Settings,
            Page::Terminal(name) => PageView::Terminal(name@),
        }
    }
}

impl Clone for Page {
    fn clone(&self) -> (r: Page)
        ensures
            r@ == self@,
    {
        match self {
            Page::Home => Page::Home,
            Page::Settings => Page::Settings,
            Page::Terminal(name) => Page::Terminal(name.clone()),
        }
    }
}

impl Page {
    /// Whether two pages are the same.
    pub fn same_as(&self, other: &Page) -> (r: bool)
        ensures
            r == (self@ == other@),
    {
        match (self, other) {
            (Page::Home, Page::Home) => true,
            (Page::Settings, Page::Settings) => true,
            (Page::Terminal(a), Page::Terminal(b)) => *a == *b,
            _ => false,
        }
    }
}

/// One tab of the bar.
pub struct Tab {
    pub label: String,
    pub page: Page,
    pub closable: bool,
}

/// The mathematical form of a `Tab`.
pub struct TabView {
    pub label: Seq<char>,
    pub page: PageView,
    pub closable: bool,
}

impl View for Tab {
    type V = TabView;

    open spec fn view(&self) -> TabView {
        TabView { label: self.label@, page: self.page@, closable: self.closable }
    }
}

/// The label of the tab that shows `page`.
pub open spec fn page_label(page: PageView) -> Seq<char> {
    match page {
        PageView::Home => "首页"@,
        PageView::Settings => "设置"@,
        PageView::Terminal(name) => "终端: "@ + name,
    }
}

/// The tab that shows `page`: its label, and closable unless it is home.
pub open spec fn tab_for(page: PageView) -> TabView {
    TabView { label: page_label(page), page, closable: !(page is Home) }
}

/// The mathematical form of a `TabBar`: the tabs in order and the index of
/// the active one.
pub struct TabBarView {
    pub tabs: Seq<TabView>,
    pub active: int,
}

/// Whether some tab of `tabs` shows `page`.
pub open spec fn shows(tabs: Seq<TabView>, page: PageView) -> bool {
    exists|i: int| 0 <= i < tabs.len() && #[trigger] tabs[i].page == page
}

/// A well-formed bar: the home tab comes first; every tab is the tab for its
/// page; no page is shown twice; the active index is a tab's.
pub open spec fn bar_wf(v: TabBarView) -> bool {
    &&& v.tabs.len() >= 1
    &&& v.tabs[0] == tab_for(PageView::Home)
    &&& forall|i: int| 0 <= i < v.tabs.len() ==> #[trigger] v.tabs[i] == tab_for(v.tabs[i].page)
    &&& forall|i: int, j: int|
        0 <= i < v.tabs.len() && 0 <= j < v.tabs.len() && i != j ==> #[trigger] v.tabs[i].page
            != #[trigger] v.tabs[j].page
    &&& 0 <= v.active < v.tabs.len()
}

/// The bar when the application starts: only the home tab, active.
pub open spec fn initial_bar() -> TabBarView {
    TabBarView { tabs: seq![tab_for(PageView::Home)], active: 0 }
}

/// Opens a tab for `page` unless one is open already; a new tab goes last
/// and becomes active.
pub open spec fn open_page(v: TabBarView, page: PageView) -> TabBarView {
    if shows(v.tabs, page) {
        v
    } else {
        TabBarView { tabs: v.tabs.push(tab_for(page)), active: v.tabs.len() as int }
    }
}

/// Makes tab `i` active, when there is one.
pub open spec fn select(v: TabBarView, i: int) -> TabBarView {
    if 0 <= i < v.tabs.len() {
        TabBarView { active: i, ..v }
    } else {
        v
    }
}

/// Closes tab `i` when there is one and it is closable; an active index at
/// or after it moves one back, unless it is the first.
pub open spec fn close(v: TabBarView, i: int) -> TabBarView {
    if 0 <= i < v.tabs.len() && v.tabs[i].closable {
        TabBarView {
            tabs: v.tabs.remove(i),
            active: if v.active >= i && v.active > 0 {
                v.active - 1
            } else {
                v.active
            },
        }
    } else {
        v
    }
}

/// The settings button: the second tab becomes active, then the settings tab
/// is opened if it is not open yet.
pub open spec fn settings_clicked(v: TabBarView) -> TabBarView {
    open_page(TabBarView { active: 1, ..v }, PageView::Settings)
}

/// The tab bar.
pub struct TabBar {
    tabs: Vec<Tab>,
    active: usize,
}

impl View for TabBar {
    type V = TabBarView;

    closed spec fn view(&self) -> TabBarView {
        TabBarView { tabs: self.tabs@.map_values(|t: Tab| t@), active: self.active as int }
    }
}


/// The label of the tab for `page`.
fn label_of(page: &Page) -> (l: String)
    ensures
        l@ == page_label(page@),
{
    match page {
        Page::Home => "首页".to_owned(),
        Page::Settings => "设置".to_owned(),
        Page::Terminal(name) => {
            let mut l: String = "终端: ".to_owned();
            l.append(name.as_str());
            l
        },
    }
}

impl TabBar {
    #[verifier::type_invariant]
    spec fn inv(&self) -> bool {
        bar_wf(self@)
    }

    /// The bar when the application starts: only the home tab, active.
    pub fn new() -> (b: TabBar)
        ensures
            b@ == initial_bar(),
            bar_wf(b@),
    {
        let mut tabs: Vec<Tab> = Vec::new();
        tabs.push(Tab { label: label_of(&Page::Home), page: Page::Home, closable: false });
        assert(tabs@.map_values(|t: Tab| t@) =~= initial_bar().tabs);
        let b = TabBar { tabs, active: 0 };
        proof {
            use_type_invariant(&b);
        }
        b
    }

    /// The tabs, in order.
    pub fn tabs(&self) -> (t: &Vec<Tab>)
        ensures
            t@.map_values(|t: Tab| t@) == self@.tabs,
            bar_wf(self@),
    {
        proof {
            use_type_invariant(self);
        }
        &self.tabs
    }

    /// The index of the active tab.
    pub fn active_tab(&self) -> (i: usize)
        ensures
            i == self@.active,
            bar_wf(self@),
    {
        proof {
            use_type_invariant(self);
        }
        self.active
    }

    /// The page of the active tab.
    pub fn active_page(&self) -> (p: Page)
        ensures
            0 <= self@.active < self@.tabs.len(),
            p@ == self@.tabs[self@.active].page,
    {
        proof {
            use_type_invariant(self);
        }
        assert(self@.tabs[self@.active] == self.tabs@[self.active as int]@);
        self.tabs[self.active].page.clone()
    }

    /// Whether some tab shows `page`.
    fn is_open(&self, page: &Page) -> (r: bool)
        ensures
            r == shows(self@.tabs, page@),
    {
        let ghost tv = self@.tabs;
        let mut i: usize = 0;
        while i < self.tabs.len()
            invariant
                i <= self.tabs.len(),
                tv == self@.tabs,
                forall|k: int| 0 <= k < i ==> tv[k].page != page@,
            decreases self.tabs.len() - i,
        {
            assert(tv[i as int] == self.tabs@[i as int]@);
            if self.tabs[i].page.same_as(page) {
                assert(tv[i as int].page == page@);
                return true;
            }
            i = i + 1;
        }
        false
    }

    /// Takes the tabs and the active index out of the bar, leaving a fresh
    /// bar in its place.
    fn take_parts(&mut self) -> (r: (Vec<Tab>, usize))
        ensures
            bar_wf(old(self)@),
            r.0@.map_values(|t: Tab| t@) == old(self)@.tabs,
            r.1 == old(self)@.active,
    {
        proof {
            use_type_invariant(&*self);
        }
        let mut fresh = TabBar::new();
        std::mem::swap(self, &mut fresh);
        proof {
            use_type_invariant(&fresh);
        }
        let TabBar { tabs, active } = fresh;
        (tabs, active)
    }

    /// Opens a tab for `page` unless one is open already.
    fn open(&mut self, page: Page)
        requires
            !(page@ is Home),
        ensures
            final(self)@ == open_page(old(self)@, page@),
    {
        if !self.is_open(&page) {
            let label = label_of(&page);
            let ghost pv = page@;
            let (mut tabs, active) = self.take_parts();
            let ghost v = TabBarView { tabs: tabs@.map_values(|t: Tab| t@), active: active as int };
            let new_active = tabs.len();
            tabs.push(Tab { label, page, closable: true });
            assert(tabs@.map_values(|t: Tab| t@) =~= v.tabs.push(tab_for(pv)));
            proof {
                lemma_open_page_wf(v, pv);
            }
            *self = TabBar { tabs, active: new_active };
        }
    }

    /// Opens a terminal tab for the session `name` unless one is open; a new
    /// tab becomes active.
    pub fn add_terminal_tab(&mut self, name: String)
        ensures
            final(self)@ == open_page(old(self)@, PageView::Terminal(name@)),
            bar_wf(final(self)@),
    {
        self.open(Page::Terminal(name));
        proof {
            use_type_invariant(&*self);
        }
    }

    /// Opens the settings tab unless it is open; a new tab becomes active.
    pub fn add_settings_tab(&mut self)
        ensures
            final(self)@ == open_page(old(self)@, PageView::Settings),
            bar_wf(final(self)@),
    {
        self.open(Page::Settings);
        proof {
            use_type_invariant(&*self);
        }
    }

    /// Makes tab `i` active, when there is one.
    pub fn select_tab(&mut self, i: usize)
        ensures
            final(self)@ == select(old(self)@, i as int),
            bar_wf(final(self)@),
    {
        if i < self.tabs.len() {
            let (tabs, active) = self.take_parts();
            *self = TabBar { tabs, active: i };
        }
        proof {
            use_type_invariant(&*self);
        }
    }

    /// Closes tab `i` when there is one and it is closable.
    pub fn close_tab(&mut self, i: usize)
        ensures
            final(self)@ == close(old(self)@, i as int),
            bar_wf(final(self)@),
    {
        if i < self.tabs.len() && self.tabs[i].closable {
            assert(self@.tabs[i as int] == self.tabs@[i as int]@);
            let (mut tabs, active) = self.take_parts();
            let ghost v = TabBarView { tabs: tabs@.map_values(|t: Tab| t@), active: active as int };
            tabs.remove(i);
            let new_active = if active >= i && active > 0 {
                active - 1
            } else {
                active
            };
            assert(tabs@.map_values(|t: Tab| t@) =~= v.tabs.remove(i as int));
            proof {
                lemma_close_wf(v, i as int);
            }
            *self = TabBar { tabs, active: new_active };
        }
        proof {
            use_type_invariant(&*self);
        }
    }

    /// The home button: the first tab becomes active.
    pub fn go_home(&mut self)
        ensures
            final(self)@ == select(old(self)@, 0),
            bar_wf(final(self)@),
    {
        self.select_tab(0);
        proof {
            use_type_invariant(&*self);
        }
    }

    /// The settings button: the second tab becomes active, then the settings
    /// tab is opened if it is not open yet.
    pub fn open_settings(&mut self)
        ensures
            final(self)@ == settings_clicked(old(self)@),
            bar_wf(final(self)@),
    {
        proof {
            use_type_invariant(&*self);
            lemma_settings_clicked_wf(self@);
        }
        if self.is_open(&Page::Settings) {
            let (tabs, active) = self.take_parts();
            *self = TabBar { tabs, active: 1 };
        } else {
            self.add_settings_tab();
        }
        proof {
            use_type_invariant(&*self);
        }
    }
}

/// Opening a page other than home keeps a bar well formed.
pub proof fn lemma_open_page_wf(v: TabBarView, page: PageView)
    requires
        bar_wf(v),
        !(page is Home),
    ensures
        bar_wf(open_page(v, page)),
{
    if !shows(v.tabs, page) {
        let w = open_page(v, page);
        assert forall|i: int, j: int|
            0 <= i < w.tabs.len() && 0 <= j < w.tabs.len() && i != j implies #[trigger] w.tabs[i].page
            != #[trigger] w.tabs[j].page by {
            if i == v.tabs.len() {
                assert(v.tabs[j].page != page);
            } else if j == v.tabs.len() {
                assert(v.tabs[i].page != page);
            }
        }
    }
}

/// Selecting a tab keeps a bar well formed.
pub proof fn lemma_select_wf(v: TabBarView, i: int)
    requires
        bar_wf(v),
    ensures
        bar_wf(select(v, i)),
{
}

/// Closing a tab keeps a bar well formed.
pub proof fn lemma_close_wf(v: TabBarView, i: int)
    requires
        bar_wf(v),
    ensures
        bar_wf(close(v, i)),
{
    if 0 <= i < v.tabs.len() && v.tabs[i].closable {
        let w = close(v, i);
        assert(i != 0);
        assert(w.tabs[0] == v.tabs[0]);
        assert forall|k: int| 0 <= k < w.tabs.len() implies #[trigger] w.tabs[k] == tab_for(
            w.tabs[k].page,
        ) by {
            if k < i {
                assert(w.tabs[k] == v.tabs[k]);
            } else {
                assert(w.tabs[k] == v.tabs[k + 1]);
            }
        }
        assert forall|a: int, b: int|
            0 <= a < w.tabs.len() && 0 <= b < w.tabs.len() && a != b implies #[trigger] w.tabs[a].page
            != #[trigger] w.tabs[b].page by {
            let a2 = if a < i {
                a
            } else {
                a + 1
            };
            let b2 = if b < i {
                b
            } else {
                b + 1
            };
            assert(w.tabs[a] == v.tabs[a2]);
            assert(w.tabs[b] == v.tabs[b2]);
        }
    }
}

/// The settings button keeps a bar well formed.
pub proof fn lemma_settings_clicked_wf(v: TabBarView)
    requires
        bar_wf(v),
    ensures
        bar_wf(settings_clicked(v)),
        shows(v.tabs, PageView::Settings) ==> v.tabs.len() >= 2,
{
    if shows(v.tabs, PageView::Settings) {
        let k = choose|k: int| 0 <= k < v.tabs.len() && #[trigger] v.tabs[k].page == PageView::Settings;
        assert(k != 0);
    } else {
        let u = TabBarView { active: 1, ..v };
        let w = settings_clicked(v);
        assert(w.tabs == v.tabs.push(tab_for(PageView::Settings)));
        assert forall|i: int, j: int|
            0 <= i < w.tabs.len() && 0 <= j < w.tabs.len() && i != j implies #[trigger] w.tabs[i].page
            != #[trigger] w.tabs[j].page by {
            if i == v.tabs.len() {
                assert(v.tabs[j].page != PageView::Settings);
            } else if j == v.tabs.len() {
                assert(v.tabs[i].page != PageView::Settings);
            }
        }
    }
}


/// Opening a page twice is opening it once.
pub proof fn lemma_open_page_idempotent(v: TabBarView, page: PageView)
    ensures
        open_page(open_page(v, page), page) == open_page(v, page),
{
    if !shows(v.tabs, page) {
        let w = open_page(v, page);
        assert(w.tabs[v.tabs.len() as int].page == page);
    }
}

/// Closing the tab that opening a new page added gives back the tabs there
/// were before.
pub proof fn lemma_close_undoes_open(v: TabBarView, page: PageView)
    requires
        bar_wf(v),
        !(page is Home),
        !shows(v.tabs, page),
    ensures
        close(open_page(v, page), v.tabs.len() as int).tabs == v.tabs,
{
    let w = open_page(v, page);
    assert(w.tabs.remove(v.tabs.len() as int) =~= v.tabs);
}

/// The home tab cannot be closed.
pub proof fn lemma_home_not_closable(v: TabBarView)
    requires
        bar_wf(v),
    ensures
        close(v, 0) == v,
{
}

} // verus!
