//! The top navigation: which sections the tab strip shows, which tab is up, how Tab and
//! the number keys walk the strip, and the per-section list cursors.
use vstd::prelude::*;

use crate::cursor::{lemma_wrapped_back, wrap_add, wrapped};
use crate::keys::Key;
use crate::sections::{index_of, index_of_spec, Section};
use crate::text::{chars_of, push_char, string_of};

verus! {

/// How many sections the strip can show (Pull Requests, Work Items, Pipelines).
pub const SECTION_COUNT: usize = 3;

/// The narrowest terminal that still shows the preview pane beside a section list.
pub const PREVIEW_MIN_WIDTH: u16 = 140;

/// What is on screen, as far as the tab strip is concerned.
#[derive(Debug, Clone, Copy, PartialEq, Eq, Structural)]
pub enum ScreenKind {
    /// The landing page, tab 0.
    Launchpad,
    /// The list of the active section.
    List,
    /// A pipeline run opened full screen.
    Pipeline,
    /// The connection settings.
    Config,
    /// A pull request opened full screen.
    PrView,
    /// A work item opened full screen.
    WiView,
    /// The notification inbox.
    Inbox,
}

/// The navigation state: the sections on the strip, the active one, what is on screen,
/// and each section's list cursor and scroll.
pub struct Navigation {
    /// Per section: whether its tab is on the strip.
    pub visible: Vec<bool>,
    /// Per section: whether its preview pane is switched off.
    pub preview_hidden: Vec<bool>,
    /// The section whose list is (or was last) on screen.
    pub active: usize,
    pub screen: ScreenKind,
    /// The first list row drawn.
    pub list_scroll: u16,
    /// The terminal's content width and height, as last drawn.
    pub content_w: u16,
    pub content_h: u16,
    /// Per section: the selected row of its (filtered) list.
    pub sel: Vec<Option<usize>>,
    /// Per section: the quick-filter text.
    pub filters: Vec<String>,
    /// The quick-filter input is open.
    pub filtering: bool,
}

/// The sections below `n` whose tabs are on the strip, in order.
pub open spec fn shown_upto(vis: Seq<bool>, n: int) -> Seq<usize>
    decreases n,
{
    if n <= 0 {
        seq![]
    } else {
        shown_upto(vis, n - 1) + if vis[n - 1] {
            seq![(n - 1) as usize]
        } else {
            seq![]
        }
    }
}

/// The section's row cursor once its list has `len` rows: none for an empty list, the
/// first row when nothing was selected, else the old row kept inside the list.
pub open spec fn clamp_sel(sel: Option<usize>, len: int) -> Option<usize> {
    if len <= 0 {
        None
    } else {
        match sel {
            None => Some(0),
            Some(i) => Some(
                if i < len {
                    i
                } else {
                    (len - 1) as usize
                },
            ),
        }
    }
}

/// What the strip shows when `hidden` sections are switched off: every other section, or
/// Pull Requests alone when all three are.
pub open spec fn visible_after(hidden: Seq<Section>) -> Seq<bool> {
    let v = seq![
        !hidden.contains(Section::PullRequests),
        !hidden.contains(Section::WorkItems),
        !hidden.contains(Section::Pipelines),
    ];
    if !v[0] && !v[1] && !v[2] {
        seq![true, false, false]
    } else {
        v
    }
}

/// Per section: whether `hidden` switches its preview off.
pub open spec fn preview_hidden_after(hidden: Seq<Section>) -> Seq<bool> {
    seq![
        hidden.contains(Section::PullRequests),
        hidden.contains(Section::WorkItems),
        hidden.contains(Section::Pipelines),
    ]
}

/// The shown sections are increasing and are exactly the visible ones below `n`.
pub proof fn lemma_shown_upto(vis: Seq<bool>, n: int)
    requires
        0 <= n <= vis.len(),
        n <= usize::MAX,
    ensures
        forall|i: int, j: int|
            0 <= i < j < shown_upto(vis, n).len() ==> shown_upto(vis, n)[i] < shown_upto(vis, n)[j],
        forall|i: int| 0 <= i < shown_upto(vis, n).len() ==> shown_upto(vis, n)[i] < n,
        forall|x: usize| #[trigger] shown_upto(vis, n).contains(x) <==> (x < n && vis[x as int]),
        shown_upto(vis, n).len() <= n,
    decreases n,
{
    if n > 0 {
        lemma_shown_upto(vis, n - 1);
        let a = shown_upto(vis, n - 1);
        let s = shown_upto(vis, n);
        if vis[n - 1] {
            assert(s == a.push((n - 1) as usize));
            assert forall|x: usize| #[trigger] s.contains(x) <==> (x < n && vis[x as int]) by {
                if x == n - 1 {
                    assert(s[a.len() as int] == x);
                } else if s.contains(x) {
                    let w = choose|w: int| 0 <= w < s.len() && s[w] == x;
                    if w < a.len() {
                        assert(a[w] == x);
                        assert(a.contains(x));
                    }
                } else if x < n - 1 && vis[x as int] {
                    assert(a.contains(x));
                    let w = choose|w: int| 0 <= w < a.len() && a[w] == x;
                    assert(s[w] == x);
                }
            }
        } else {
            assert(s == a);
        }
    }
}

/// In an increasing sequence each value sits at one place only.
proof fn lemma_increasing_unique(s: Seq<usize>, i: int, j: int)
    requires
        forall|a: int, b: int| 0 <= a < b < s.len() ==> s[a] < s[b],
        0 <= i < s.len(),
        0 <= j < s.len(),
        s[i] == s[j],
    ensures
        i == j,
{
    if i < j {
        assert(s[i] < s[j]);
    } else if j < i {
        assert(s[j] < s[i]);
    }
}

impl Navigation {
    /// Three sections, each with its flags and cursor, and the active one among them.
    pub open spec fn wf(&self) -> bool {
        &&& self.visible@.len() == SECTION_COUNT
        &&& self.preview_hidden@.len() == SECTION_COUNT
        &&& self.sel@.len() == SECTION_COUNT
        &&& self.filters@.len() == SECTION_COUNT
        &&& self.active < SECTION_COUNT
    }

    /// The sections whose tabs are on the strip, in order.
    pub open spec fn shown(&self) -> Seq<usize> {
        shown_upto(self.visible@, SECTION_COUNT as int)
    }

    /// The number of tabs on the strip, the Launchpad's included.
    pub open spec fn tab_count(&self) -> int {
        1 + self.shown().len() as int
    }

    /// The section a screen belongs to on the strip.
    pub open spec fn screen_section_spec(&self) -> usize {
        match self.screen {
            ScreenKind::PrView => index_of_spec(Section::PullRequests) as usize,
            ScreenKind::WiView => index_of_spec(Section::WorkItems) as usize,
            ScreenKind::Pipeline => index_of_spec(Section::Pipelines) as usize,
            _ => self.active,
        }
    }

    /// The strip position of what is on screen: 0 for the Launchpad, else one past the
    /// place of the screen's section among the shown ones (1 when it is not shown).
    pub open spec fn top_pos_spec(&self) -> int {
        if self.screen == ScreenKind::Launchpad {
            0
        } else {
            let s = self.shown();
            let sec = self.screen_section_spec();
            if s.contains(sec) {
                1 + choose|i: int| 0 <= i < s.len() && s[i] == sec
            } else {
                1
            }
        }
    }

    /// A new navigation: every section shown, the Launchpad up, nothing selected.
    pub fn new() -> (r: Navigation)
        ensures
            r.wf(),
            r.visible@ == seq![true, true, true],
            r.preview_hidden@ == seq![false, false, false],
            r.active == 0,
            r.screen == ScreenKind::Launchpad,
            r.list_scroll == 0,
            r.content_w == 0,
            r.content_h == 0,
            r.sel@ == seq![None::<usize>, None, None],
            forall|k: int| 0 <= k < 3 ==> (#[trigger] r.filters@[k])@.len() == 0,
            !r.filtering,
    {
        let r = Navigation {
            visible: vec![true, true, true],
            preview_hidden: vec![false, false, false],
            active: 0,
            screen: ScreenKind::Launchpad,
            list_scroll: 0,
            content_w: 0,
            content_h: 0,
            sel: vec![None, None, None],
            filters: vec![String::new(), String::new(), String::new()],
            filtering: false,
        };
        assert(r.visible@ == seq![true, true, true]);
        assert(r.preview_hidden@ == seq![false, false, false]);
        assert(r.sel@ == seq![None::<usize>, None, None]);
        r
    }

    /// Section indices currently shown in the tab bar, in order.
    pub fn visible_indices(&self) -> (r: Vec<usize>)
        requires
            self.wf(),
        ensures
            r@ == self.shown(),
    {
        let mut r: Vec<usize> = Vec::new();
        let mut i: usize = 0;
        while i < SECTION_COUNT
            invariant
                self.wf(),
                i <= SECTION_COUNT,
                r@ == shown_upto(self.visible@, i as int),
            decreases SECTION_COUNT - i,
        {
            if self.visible[i] {
                r.push(i);
            }
            i += 1;
            assert(r@ =~= shown_upto(self.visible@, i as int));
        }
        r
    }

    /// The first shown section (0 when none is).
    pub fn first_visible(&self) -> (r: usize)
        requires
            self.wf(),
        ensures
            r == (if self.shown().len() > 0 {
                self.shown()[0]
            } else {
                0
            }),
    {
        let v = self.visible_indices();
        if v.len() > 0 {
            v[0]
        } else {
            0
        }
    }

    /// The section a screen belongs to on the tab strip. A full-screen item view answers
    /// for the section its item came from, not the active one.
    pub fn screen_section(&self) -> (r: usize)
        ensures
            r == self.screen_section_spec(),
    {
        match self.screen {
            ScreenKind::PrView => index_of(Section::PullRequests),
            ScreenKind::WiView => index_of(Section::WorkItems),
            ScreenKind::Pipeline => index_of(Section::Pipelines),
            _ => self.active,
        }
    }

    /// The top-level tab position: 0 = Launchpad, then each visible section.
    pub fn top_pos(&self) -> (r: usize)
        requires
            self.wf(),
        ensures
            r == self.top_pos_spec(),
            r < 1 + SECTION_COUNT,
    {
        if self.screen == ScreenKind::Launchpad {
            return 0;
        }
        let v = self.visible_indices();
        let sec = self.screen_section();
        proof {
            lemma_shown_upto(self.visible@, SECTION_COUNT as int);
        }
        let mut i: usize = 0;
        while i < v.len()
            invariant
                self.wf(),
                self.screen != ScreenKind::Launchpad,
                v@ == self.shown(),
                v@.len() <= SECTION_COUNT,
                sec == self.screen_section_spec(),
                i <= v.len(),
                forall|j: int| 0 <= j < i ==> v@[j] != sec,
            decreases v.len() - i,
        {
            if v[i] == sec {
                proof {
                    let s = self.shown();
                    lemma_shown_upto(self.visible@, SECTION_COUNT as int);
                    assert(s[i as int] == sec);
                    assert(s.contains(sec));
                    let c = choose|k: int| 0 <= k < s.len() && s[k] == sec;
                    lemma_increasing_unique(s, c, i as int);
                }
                return 1 + i;
            }
            i += 1;
        }
        proof {
            if self.shown().contains(sec) {
                let k = choose|k: int| 0 <= k < self.shown().len() && self.shown()[k] == sec;
                assert(v@[k] == sec);
            }
        }
        1
    }
}


/// The first list row drawn once row `sel` is brought into a viewport of `h` rows (at
/// least one) that started at row `top`.
pub open spec fn view_top(top: int, sel: int, h: int) -> int {
    let h = if h == 0 {
        1
    } else {
        h
    };
    if sel < top {
        sel
    } else if sel >= top + h {
        sel - h + 1
    } else {
        top
    }
}

/// What moving to strip position `pos` leaves: the Launchpad for 0, else the list of the
/// shown section at `pos - 1` with its cursor kept inside its `lens` rows and the list
/// scrolled to the top; a position past the strip changes nothing.
pub open spec fn went_to_tab(o: Navigation, n: Navigation, pos: int, lens: Seq<usize>) -> bool {
    if pos == 0 {
        n == Navigation { screen: ScreenKind::Launchpad, ..o }
    } else if pos - 1 < o.shown().len() {
        let sec = o.shown()[pos - 1];
        &&& n.sel@ == o.sel@.update(sec as int, clamp_sel(o.sel@[sec as int], lens[sec as int] as int))
        &&& n == (Navigation {
            active: sec,
            screen: ScreenKind::List,
            list_scroll: 0,
            sel: n.sel,
            ..o
        })
    } else {
        n == o
    }
}

fn clamp_sel_exec(sel: Option<usize>, len: usize) -> (r: Option<usize>)
    ensures
        r == clamp_sel(sel, len as int),
{
    if len == 0 {
        None
    } else {
        match sel {
            None => Some(0),
            Some(i) => Some(
                if i < len {
                    i
                } else {
                    len - 1
                },
            ),
        }
    }
}

impl Navigation {
    /// Moves to a top-level tab position (0 = Launchpad, 1.. = sections); `lens` holds the
    /// row count of each section's filtered list.
    pub fn go_to_tab(&mut self, pos: usize, lens: &Vec<usize>)
        requires
            old(self).wf(),
            lens@.len() == SECTION_COUNT,
        ensures
            final(self).wf(),
            went_to_tab(*old(self), *final(self), pos as int, lens@),
    {
        if pos == 0 {
            self.screen = ScreenKind::Launchpad;
        } else {
            let v = self.visible_indices();
            if pos - 1 < v.len() {
                let section = v[pos - 1];
                proof {
                    lemma_shown_upto(self.visible@, SECTION_COUNT as int);
                    assert(self.shown()[pos - 1] < SECTION_COUNT);
                }
                self.active = section;
                self.screen = ScreenKind::List;
                self.list_scroll = 0;
                let next = clamp_sel_exec(self.sel[section], lens[section]);
                self.sel.set(section, next);
            }
        }
    }

    /// Cycles across the tab strip [Launchpad, …visible sections] with wraparound.
    pub fn switch_tab(&mut self, delta: isize, lens: &Vec<usize>)
        requires
            old(self).wf(),
            lens@.len() == SECTION_COUNT,
            old(self).top_pos_spec() + delta <= isize::MAX,
        ensures
            final(self).wf(),
            went_to_tab(
                *old(self),
                *final(self),
                wrapped(old(self).top_pos_spec(), delta as int, old(self).tab_count()),
                lens@,
            ),
    {
        proof {
            lemma_shown_upto(self.visible@, SECTION_COUNT as int);
        }
        let n = 1 + self.visible_indices().len();
        let next = wrap_add(self.top_pos(), delta, n);
        self.go_to_tab(next, lens);
    }

    /// Jumps to the Nth tab (0 = Launchpad), for the number keys.
    pub fn set_tab(&mut self, idx: usize, lens: &Vec<usize>)
        requires
            old(self).wf(),
            lens@.len() == SECTION_COUNT,
        ensures
            final(self).wf(),
            went_to_tab(*old(self), *final(self), idx as int, lens@),
    {
        self.go_to_tab(idx, lens);
    }
}

/// Moving to a position on the strip puts that position on screen.
pub proof fn lemma_go_to_tab_lands(o: Navigation, n: Navigation, pos: int, lens: Seq<usize>)
    requires
        o.wf(),
        0 <= pos < o.tab_count(),
        went_to_tab(o, n, pos, lens),
    ensures
        n.wf(),
        n.top_pos_spec() == pos,
        n.shown() == o.shown(),
{
    if pos > 0 {
        let s = o.shown();
        lemma_shown_upto(o.visible@, SECTION_COUNT as int);
        let sec = s[pos - 1];
        assert(n.screen_section_spec() == sec);
        assert(s.contains(sec));
        let c = choose|i: int| 0 <= i < s.len() && s[i] == sec;
        lemma_increasing_unique(s, c, pos - 1);
    }
}

/// Where the strip shows at least one section, the screen's position lies on it.
pub proof fn lemma_top_pos_on_strip(o: Navigation)
    requires
        o.wf(),
        o.shown().len() > 0,
    ensures
        0 <= o.top_pos_spec() < o.tab_count(),
{
    if o.screen != ScreenKind::Launchpad {
        let s = o.shown();
        let sec = o.screen_section_spec();
        if s.contains(sec) {
            let c = choose|i: int| 0 <= i < s.len() && s[i] == sec;
            assert(0 <= c < s.len());
        }
    }
}

/// Tab by `delta` moves the strip position by `delta`, wrapping at both ends.
pub proof fn lemma_switch_tab_moves(o: Navigation, n: Navigation, delta: int, lens: Seq<usize>)
    requires
        o.wf(),
        went_to_tab(o, n, wrapped(o.top_pos_spec(), delta, o.tab_count()), lens),
    ensures
        n.wf(),
        n.top_pos_spec() == wrapped(o.top_pos_spec(), delta, o.tab_count()),
        n.shown() == o.shown(),
{
    let p = wrapped(o.top_pos_spec(), delta, o.tab_count());
    vstd::arithmetic::div_mod::lemma_mod_bound(o.top_pos_spec() + delta, o.tab_count());
    lemma_go_to_tab_lands(o, n, p, lens);
}

/// Shift-Tab undoes Tab: moving the strip position by `delta` and then by `-delta` comes
/// back to the tab that was on screen.
pub proof fn lemma_switch_tab_back(
    o: Navigation,
    m: Navigation,
    n: Navigation,
    delta: int,
    lens: Seq<usize>,
)
    requires
        o.wf(),
        o.shown().len() > 0,
        went_to_tab(o, m, wrapped(o.top_pos_spec(), delta, o.tab_count()), lens),
        went_to_tab(m, n, wrapped(m.top_pos_spec(), -delta, m.tab_count()), lens),
    ensures
        n.top_pos_spec() == o.top_pos_spec(),
{
    lemma_top_pos_on_strip(o);
    lemma_switch_tab_moves(o, m, delta, lens);
    lemma_switch_tab_moves(m, n, -delta, lens);
    lemma_wrapped_back(o.top_pos_spec(), delta, o.tab_count());
}


/// Whether one of the first `i` entries of `hidden` names section `k`.
pub open spec fn named_before(hidden: Seq<Section>, i: int, k: int) -> bool {
    exists|j: int| 0 <= j < i && index_of_spec(#[trigger] hidden[j]) == k
}

proof fn lemma_named_all(hidden: Seq<Section>)
    ensures
        named_before(hidden, hidden.len() as int, 0) == hidden.contains(Section::PullRequests),
        named_before(hidden, hidden.len() as int, 1) == hidden.contains(Section::WorkItems),
        named_before(hidden, hidden.len() as int, 2) == hidden.contains(Section::Pipelines),
{
    let n = hidden.len() as int;
    if hidden.contains(Section::PullRequests) {
        let j = choose|j: int| 0 <= j < n && hidden[j] == Section::PullRequests;
        assert(index_of_spec(hidden[j]) == 0);
    }
    if named_before(hidden, n, 0) {
        let j = choose|j: int| 0 <= j < n && index_of_spec(#[trigger] hidden[j]) == 0;
        assert(hidden[j] == Section::PullRequests);
    }
    if hidden.contains(Section::WorkItems) {
        let j = choose|j: int| 0 <= j < n && hidden[j] == Section::WorkItems;
        assert(index_of_spec(hidden[j]) == 1);
    }
    if named_before(hidden, n, 1) {
        let j = choose|j: int| 0 <= j < n && index_of_spec(#[trigger] hidden[j]) == 1;
        assert(hidden[j] == Section::WorkItems);
    }
    if hidden.contains(Section::Pipelines) {
        let j = choose|j: int| 0 <= j < n && hidden[j] == Section::Pipelines;
        assert(index_of_spec(hidden[j]) == 2);
    }
    if named_before(hidden, n, 2) {
        let j = choose|j: int| 0 <= j < n && index_of_spec(#[trigger] hidden[j]) == 2;
        assert(hidden[j] == Section::Pipelines);
    }
}

/// Per section: `flag` where `hidden` names it, `!flag` elsewhere.
fn section_flags(hidden: &[Section], flag: bool) -> (r: Vec<bool>)
    ensures
        r@ == seq![
            hidden@.contains(Section::PullRequests) == flag,
            hidden@.contains(Section::WorkItems) == flag,
            hidden@.contains(Section::Pipelines) == flag,
        ],
{
    let mut r = vec![!flag, !flag, !flag];
    let mut i: usize = 0;
    while i < hidden.len()
        invariant
            i <= hidden@.len(),
            r@.len() == SECTION_COUNT,
            forall|k: int| 0 <= k < 3 ==> #[trigger] r@[k] == (named_before(hidden@, i as int, k) == flag),
        decreases hidden@.len() - i,
    {
        let k = index_of(hidden[i]);
        r.set(k, flag);
        assert forall|q: int| 0 <= q < 3 implies #[trigger] r@[q] == (named_before(hidden@, i + 1, q) == flag) by {
            if q == k {
                assert(index_of_spec(hidden@[i as int]) == q);
            } else {
                if named_before(hidden@, i + 1, q) {
                    let j = choose|j: int| 0 <= j < i + 1 && index_of_spec(#[trigger] hidden@[j]) == q;
                    assert(j != i);
                }
            }
        }
        i += 1;
    }
    proof {
        lemma_named_all(hidden@);
    }
    assert(r@ =~= seq![
        hidden@.contains(Section::PullRequests) == flag,
        hidden@.contains(Section::WorkItems) == flag,
        hidden@.contains(Section::Pipelines) == flag,
    ]);
    r
}

impl Navigation {
    /// Applies persisted hidden-section preferences at startup: the named sections leave
    /// the strip (Pull Requests stays when all would), and an active section that left
    /// gives way to the first shown one.
    pub fn apply_hidden_sections(&mut self, hidden: &[Section])
        requires
            old(self).wf(),
        ensures
            final(self).wf(),
            final(self).visible@ == visible_after(hidden@),
            final(self).active == (if visible_after(hidden@)[old(self).active as int] {
                old(self).active
            } else {
                final(self).shown()[0]
            }),
            final(self).shown().len() > 0,
            final(self).visible@[final(self).active as int],
            *final(self) == (Navigation {
                visible: final(self).visible,
                active: final(self).active,
                ..*old(self)
            }),
    {
        self.visible = section_flags(hidden, false);
        if !self.visible[0] && !self.visible[1] && !self.visible[2] {
            self.visible.set(0, true);
        }
        proof {
            assert(self.visible@ =~= visible_after(hidden@));
            lemma_shown_upto(self.visible@, SECTION_COUNT as int);
            if self.visible@[0] {
                assert(self.shown().contains(0));
            } else if self.visible@[1] {
                assert(self.shown().contains(1));
            } else {
                assert(self.shown().contains(2));
            }
        }
        if !self.visible[self.active] {
            self.active = self.first_visible();
            proof {
                assert(self.shown().contains(self.shown()[0]));
            }
        }
    }

    /// Applies the persisted per-section preview switches at startup.
    pub fn apply_preview_hidden(&mut self, hidden: &[Section])
        requires
            old(self).wf(),
        ensures
            final(self).wf(),
            final(self).preview_hidden@ == preview_hidden_after(hidden@),
            *final(self) == (Navigation { preview_hidden: final(self).preview_hidden, ..*old(self) }),
    {
        self.preview_hidden = section_flags(hidden, true);
        assert(self.preview_hidden@ =~= preview_hidden_after(hidden@));
    }

    /// Whether the section list shows the preview pane: on unless switched off for this
    /// section, and only when the terminal is wide enough for both halves.
    pub fn preview_shown(&self) -> (r: bool)
        requires
            self.wf(),
        ensures
            r == (!self.preview_hidden@[self.active as int] && self.content_w >= PREVIEW_MIN_WIDTH),
    {
        self.active < SECTION_COUNT && !self.preview_hidden[self.active] && self.content_w >= PREVIEW_MIN_WIDTH
    }

    /// The active section's selected row.
    pub fn selected(&self) -> (r: Option<usize>)
        requires
            self.wf(),
        ensures
            r == self.sel@[self.active as int],
    {
        self.sel[self.active]
    }

    /// The active section's selected row, the first when none is.
    pub fn selected_index(&self) -> (r: usize)
        requires
            self.wf(),
        ensures
            r == (match self.sel@[self.active as int] {
                Some(i) => i,
                None => 0,
            }),
    {
        match self.sel[self.active] {
            Some(i) => i,
            None => 0,
        }
    }

    /// Keeps the active section's cursor inside its `len` rows.
    pub fn clamp_selection(&mut self, len: usize)
        requires
            old(self).wf(),
        ensures
            final(self).wf(),
            final(self).sel@ == old(self).sel@.update(
                old(self).active as int,
                clamp_sel(old(self).sel@[old(self).active as int], len as int),
            ),
            *final(self) == (Navigation { sel: final(self).sel, ..*old(self) }),
    {
        let next = clamp_sel_exec(self.sel[self.active], len);
        self.sel.set(self.active, next);
    }

    /// Leaves for a section's list (a Command Center "more" jump): the section becomes
    /// active, scrolled to the top, its cursor kept inside its `lens` rows.
    pub fn goto_section(&mut self, section: Section, lens: &Vec<usize>)
        requires
            old(self).wf(),
            lens@.len() == SECTION_COUNT,
        ensures
            final(self).wf(),
            final(self).active == index_of_spec(section),
            final(self).sel@ == old(self).sel@.update(
                index_of_spec(section) as int,
                clamp_sel(old(self).sel@[index_of_spec(section) as int], lens@[index_of_spec(section) as int] as int),
            ),
            *final(self) == (Navigation {
                active: index_of_spec(section) as usize,
                screen: ScreenKind::List,
                list_scroll: 0,
                sel: final(self).sel,
                ..*old(self)
            }),
    {
        self.active = index_of(section);
        self.screen = ScreenKind::List;
        self.list_scroll = 0;
        let len = lens[self.active];
        self.clamp_selection(len);
    }

    /// Moves the active section's cursor one row down its `len` rows, wrapping to the top.
    pub fn move_down(&mut self, len: usize)
        requires
            old(self).wf(),
            old(self).sel@[old(self).active as int] matches Some(i) ==> i < usize::MAX,
        ensures
            final(self).wf(),
            len == 0 ==> *final(self) == *old(self),
            len > 0 ==> final(self).sel@ == old(self).sel@.update(
                old(self).active as int,
                Some(
                    match old(self).sel@[old(self).active as int] {
                        Some(i) => ((i + 1) % (len as int)) as usize,
                        None => 0,
                    },
                ),
            ),
            *final(self) == (Navigation { sel: final(self).sel, ..*old(self) }),
    {
        if len == 0 {
            return;
        }
        let next = match self.sel[self.active] {
            Some(i) => (i + 1) % len,
            None => 0,
        };
        self.sel.set(self.active, Some(next));
    }

    /// Moves the active section's cursor one row up its `len` rows, wrapping to the bottom.
    pub fn move_up(&mut self, len: usize)
        requires
            old(self).wf(),
            old(self).sel@[old(self).active as int] matches Some(i) ==> i + len <= usize::MAX,
        ensures
            final(self).wf(),
            len == 0 ==> *final(self) == *old(self),
            len > 0 ==> final(self).sel@ == old(self).sel@.update(
                old(self).active as int,
                Some(
                    match old(self).sel@[old(self).active as int] {
                        Some(i) => ((i + len - 1) % (len as int)) as usize,
                        None => 0,
                    },
                ),
            ),
            *final(self) == (Navigation { sel: final(self).sel, ..*old(self) }),
    {
        if len == 0 {
            return;
        }
        let next = match self.sel[self.active] {
            Some(i) => (i + len - 1) % len,
            None => 0,
        };
        self.sel.set(self.active, Some(next));
    }

    /// Re-selects a valid row per section after the lists (or their filters) changed:
    /// each cursor is a position in its section's filtered list of `lens` rows.
    pub fn fix_selection(&mut self, lens: &Vec<usize>)
        requires
            old(self).wf(),
            lens@.len() == SECTION_COUNT,
        ensures
            final(self).wf(),
            forall|k: int|
                0 <= k < 3 ==> #[trigger] final(self).sel@[k] == clamp_sel(
                    old(self).sel@[k],
                    lens@[k] as int,
                ),
            *final(self) == (Navigation { sel: final(self).sel, ..*old(self) }),
    {
        let mut k: usize = 0;
        while k < SECTION_COUNT
            invariant
                k <= SECTION_COUNT,
                lens@.len() == SECTION_COUNT,
                self.wf(),
                forall|q: int| 0 <= q < k ==> #[trigger] self.sel@[q] == clamp_sel(old(self).sel@[q], lens@[q] as int),
                forall|q: int| k <= q < 3 ==> #[trigger] self.sel@[q] == old(self).sel@[q],
                *self == (Navigation { sel: self.sel, ..*old(self) }),
            decreases SECTION_COUNT - k,
        {
            let next = clamp_sel_exec(self.sel[k], lens[k]);
            self.sel.set(k, next);
            k += 1;
        }
    }

    /// Keeps the selected row within the visible list viewport of `content_h` rows.
    pub fn ensure_visible(&mut self)
        requires
            old(self).wf(),
            old(self).list_scroll + (if old(self).content_h == 0 {
                1
            } else {
                old(self).content_h as int
            }) <= u16::MAX,
        ensures
            final(self).wf(),
            final(self).list_scroll == view_top(
                old(self).list_scroll as int,
                (match old(self).sel@[old(self).active as int] {
                    Some(i) => i,
                    None => 0,
                }) as u16 as int,
                old(self).content_h as int,
            ),
            *final(self) == (Navigation { list_scroll: final(self).list_scroll, ..*old(self) }),
    {
        let sel = self.selected_index() as u16;
        let h: u16 = if self.content_h == 0 {
            1
        } else {
            self.content_h
        };
        if sel < self.list_scroll {
            self.list_scroll = sel;
        } else if sel >= self.list_scroll + h {
            self.list_scroll = sel - h + 1;
        }
    }
}


/// `s` without its last character (unchanged when empty).
fn without_last_char(s: &String) -> (r: String)
    ensures
        r@ == (if s@.len() > 0 {
            s@.drop_last()
        } else {
            s@
        }),
{
    let mut v = chars_of(s.as_str());
    if v.len() > 0 {
        v.pop();
    }
    string_of(v.as_slice())
}

/// What a key in the quick-filter input does to the active section's filter text `o`
/// (now `n`) and to whether the input is open (`was`, now `open`).
pub open spec fn filter_keyed(o: Seq<char>, n: Seq<char>, was: bool, open: bool, key: Key) -> bool {
    match key {
        Key::Escape => n.len() == 0 && !open,
        Key::Enter => n == o && !open,
        Key::Backspace => n == (if o.len() > 0 {
            o.drop_last()
        } else {
            o
        }) && open == was,
        Key::Char(c) => n == o.push(c) && open == was,
        _ => n == o && open == was,
    }
}

impl Navigation {
    /// The active section's quick-filter text.
    pub fn active_filter(&self) -> (r: &String)
        requires
            self.wf(),
        ensures
            *r == self.filters@[self.active as int],
    {
        &self.filters[self.active]
    }

    /// Opens the quick-filter input for the active section.
    pub fn start_filter(&mut self)
        ensures
            *final(self) == (Navigation { filtering: true, ..*old(self) }),
    {
        self.filtering = true;
    }

    /// Keys while the quick-filter input is open: Esc clears the filter and closes the
    /// input, Enter keeps it and closes, Backspace drops a character, a character is
    /// typed. Answers whether the filter or the input changed, in which case the list's
    /// cursor goes back to its first match (`reset_filter_selection`).
    pub fn on_filter_key(&mut self, key: Key) -> (changed: bool)
        requires
            old(self).wf(),
        ensures
            final(self).wf(),
            filter_keyed(
                old(self).filters@[old(self).active as int]@,
                final(self).filters@[old(self).active as int]@,
                old(self).filtering,
                final(self).filtering,
                key,
            ),
            changed == (key is Escape || key is Enter || key is Backspace || key is Char),
            forall|k: int| 0 <= k < 3 && k != old(self).active ==> #[trigger] final(self).filters@[k]
                == old(self).filters@[k],
            *final(self) == (Navigation {
                filters: final(self).filters,
                filtering: final(self).filtering,
                ..*old(self)
            }),
    {
        let a = self.active;
        match key {
            Key::Escape => {
                let empty = String::new();
                self.filters.set(a, empty);
                self.filtering = false;
                assert(self.filters@[a as int]@.len() == 0);
                true
            },
            Key::Enter => {
                self.filtering = false;
                true
            },
            Key::Backspace => {
                let t = without_last_char(&self.filters[a]);
                self.filters.set(a, t);
                true
            },
            Key::Char(c) => {
                push_char(&mut self.filters[a], c);
                true
            },
            _ => false,
        }
    }

    /// Re-anchors the active section's cursor to the first of its `len` matching rows,
    /// with the list scrolled to the top.
    pub fn reset_filter_selection(&mut self, len: usize)
        requires
            old(self).wf(),
        ensures
            final(self).wf(),
            final(self).sel@ == old(self).sel@.update(
                old(self).active as int,
                if len > 0 {
                    Some(0usize)
                } else {
                    None
                },
            ),
            *final(self) == (Navigation { sel: final(self).sel, list_scroll: 0, ..*old(self) }),
    {
        self.list_scroll = 0;
        self.sel.set(
            self.active,
            if len > 0 {
                Some(0)
            } else {
                None
            },
        );
    }

    /// Esc / `q` on a section list: clears an active quick filter first (answering true,
    /// the cursor then goes back to the first match), otherwise steps back to the
    /// Launchpad.
    pub fn leave_section_list(&mut self) -> (cleared: bool)
        requires
            old(self).wf(),
        ensures
            final(self).wf(),
            cleared == (old(self).filters@[old(self).active as int]@.len() > 0),
            cleared ==> final(self).filters@[old(self).active as int]@.len() == 0
                && final(self).filters@ == old(self).filters@.update(
                old(self).active as int,
                final(self).filters@[old(self).active as int],
            ) && *final(self) == (Navigation { filters: final(self).filters, ..*old(self) }),
            !cleared ==> *final(self) == (Navigation { screen: ScreenKind::Launchpad, ..*old(self) }),
    {
        if self.filters[self.active].as_str().is_empty() {
            self.screen = ScreenKind::Launchpad;
            false
        } else {
            let empty = String::new();
            self.filters.set(self.active, empty);
            true
        }
    }
}


/// What the strip shows when the tab checklist leaves `shown` ticked: those sections, or
/// Pull Requests alone when none is.
pub open spec fn visible_from(shown: Seq<Section>) -> Seq<bool> {
    let v = seq![
        shown.contains(Section::PullRequests),
        shown.contains(Section::WorkItems),
        shown.contains(Section::Pipelines),
    ];
    if !v[0] && !v[1] && !v[2] {
        seq![true, false, false]
    } else {
        v
    }
}

/// The sections a strip leaves off, in order: what is persisted as hidden.
pub open spec fn hidden_of(vis: Seq<bool>) -> Seq<Section> {
    (if !vis[0] {
        seq![Section::PullRequests]
    } else {
        seq![]
    }) + (if !vis[1] {
        seq![Section::WorkItems]
    } else {
        seq![]
    }) + (if !vis[2] {
        seq![Section::Pipelines]
    } else {
        seq![]
    })
}

proof fn lemma_hidden_of_contains(vis: Seq<bool>)
    requires
        vis.len() == 3,
    ensures
        hidden_of(vis).contains(Section::PullRequests) == !vis[0],
        hidden_of(vis).contains(Section::WorkItems) == !vis[1],
        hidden_of(vis).contains(Section::Pipelines) == !vis[2],
{
    let a: Seq<Section> = if !vis[0] {
        seq![Section::PullRequests]
    } else {
        seq![]
    };
    let b: Seq<Section> = if !vis[1] {
        seq![Section::WorkItems]
    } else {
        seq![]
    };
    let c: Seq<Section> = if !vis[2] {
        seq![Section::Pipelines]
    } else {
        seq![]
    };
    let h = hidden_of(vis);
    assert(h == a + b + c);
    assert forall|s: Section| #[trigger] h.contains(s) <==> (a.contains(s) || b.contains(s) || c.contains(s)) by {
        if h.contains(s) {
            let i = choose|i: int| 0 <= i < h.len() && h[i] == s;
            if i < a.len() {
                assert(a[i] == s);
            } else if i < a.len() + b.len() {
                assert(b[i - a.len()] == s);
            } else {
                assert(c[i - a.len() - b.len()] == s);
            }
        }
        if a.contains(s) {
            let i = choose|i: int| 0 <= i < a.len() && a[i] == s;
            assert(h[i] == s);
        }
        if b.contains(s) {
            let i = choose|i: int| 0 <= i < b.len() && b[i] == s;
            assert(h[a.len() + i] == s);
        }
        if c.contains(s) {
            let i = choose|i: int| 0 <= i < c.len() && c[i] == s;
            assert(h[a.len() + b.len() + i] == s);
        }
    }
    if !vis[0] {
        assert(a[0] == Section::PullRequests);
    }
    if !vis[1] {
        assert(b[0] == Section::WorkItems);
    }
    if !vis[2] {
        assert(c[0] == Section::Pipelines);
    }
}

/// The hidden sections the tab checklist persists bring back the same strip at the next
/// launch: applying them as hidden restores every section's visibility.
pub proof fn lemma_hidden_sections_round_trip(vis: Seq<bool>)
    requires
        vis.len() == 3,
        vis[0] || vis[1] || vis[2],
    ensures
        visible_after(hidden_of(vis)) == vis,
{
    lemma_hidden_of_contains(vis);
    assert(visible_after(hidden_of(vis)) =~= vis);
}

impl Navigation {
    /// Applies the sections left ticked in the tab checklist: the strip shows them (Pull
    /// Requests alone when none is), an active section that left gives way to the first
    /// shown one with its list at the top and its cursor inside its `lens` rows. Answers
    /// the sections now hidden, to persist.
    pub fn apply_visible_sections(&mut self, shown: &[Section], lens: &Vec<usize>) -> (hidden: Vec<Section>)
        requires
            old(self).wf(),
            lens@.len() == SECTION_COUNT,
        ensures
            final(self).wf(),
            final(self).visible@ == visible_from(shown@),
            hidden@ == hidden_of(final(self).visible@),
            final(self).shown().len() > 0,
            final(self).visible@[final(self).active as int],
            visible_from(shown@)[old(self).active as int] ==> *final(self) == (Navigation {
                visible: final(self).visible,
                ..*old(self)
            }),
            !visible_from(shown@)[old(self).active as int] ==> {
                &&& final(self).active == final(self).shown()[0]
                &&& final(self).sel@ == old(self).sel@.update(
                    final(self).active as int,
                    clamp_sel(old(self).sel@[final(self).active as int], lens@[final(self).active as int] as int),
                )
                &&& *final(self) == (Navigation {
                    visible: final(self).visible,
                    active: final(self).active,
                    list_scroll: 0,
                    sel: final(self).sel,
                    ..*old(self)
                })
            },
    {
        self.visible = section_flags(shown, true);
        proof {
            assert(self.visible@ =~= seq![
                shown@.contains(Section::PullRequests),
                shown@.contains(Section::WorkItems),
                shown@.contains(Section::Pipelines),
            ]);
        }
        if !self.visible[0] && !self.visible[1] && !self.visible[2] {
            self.visible.set(0, true);
        }
        proof {
            assert(self.visible@ =~= visible_from(shown@));
            lemma_shown_upto(self.visible@, SECTION_COUNT as int);
            if self.visible@[0] {
                assert(self.shown().contains(0));
            } else if self.visible@[1] {
                assert(self.shown().contains(1));
            } else {
                assert(self.shown().contains(2));
            }
        }
        if !self.visible[self.active] {
            self.active = self.first_visible();
            proof {
                assert(self.shown().contains(self.shown()[0]));
            }
            self.list_scroll = 0;
            self.clamp_selection(lens[self.active]);
        }
        let mut hidden: Vec<Section> = Vec::new();
        if !self.visible[0] {
            hidden.push(Section::PullRequests);
        }
        if !self.visible[1] {
            hidden.push(Section::WorkItems);
        }
        if !self.visible[2] {
            hidden.push(Section::Pipelines);
        }
        assert(hidden@ =~= hidden_of(self.visible@));
        hidden
    }
}

} // verus!
