//! The app's state as the library holds it, how it starts, and where an item view that is
//! left goes back to.
use vstd::prelude::*;

use crate::actions::ScreenFacts;
use crate::click::LpCursor;
use crate::cursor::wrapped;
use crate::lists::{PullRequestFilter, PullRequestStatus};
use crate::order::SortPref;
use crate::pipes::{PipeGroup, PipeWatch};
use crate::prview::{pr_keyed, PrPanes, ViewKeyAction, DIFF_TAB};
use crate::review::DiffFocus;
use crate::reload::{apply_reloaded, lit_loading_status, reload_applied, ListsState, ReloadEffects, Reloaded};
use crate::keys::Key;
use crate::routing::{route_of, KeyContext, KeyRoute, ListKey};
use crate::tabs::{view_top, went_to_tab, Navigation, ScreenKind, SECTION_COUNT};
use crate::views::ViewShelf;

verus! {

/// The app's state; `D` is what a pull request's decoration holds.
pub struct AppState<D> {
    /// The colour theme, by name.
    pub theme: String,
    /// The tab strip, the screen, and each section's cursor and quick filter.
    pub nav: Navigation,
    /// Each section's saved views.
    pub views: ViewShelf,
    /// The lists, the pull-request pool and what the header says about them.
    pub lists: ListsState<D>,
    /// The Command Center's cursor.
    pub lp: LpCursor,
    /// What the pipeline notifications remember between refreshes.
    pub watch: PipeWatch,
    /// The PR list's base filter, and the statuses it shows.
    pub pr_filter: PullRequestFilter,
    pub pr_shown_statuses: Vec<PullRequestStatus>,
    /// The work-item states switched off.
    pub wi_hidden_states: Vec<String>,
    /// Each section's sort (pull requests, work items, pipelines).
    pub pr_sort: Option<SortPref>,
    pub wi_sort: Option<SortPref>,
    pub pipe_sort: Option<SortPref>,
    /// How the Pipelines list groups its runs, and the groups opened.
    pub pipe_group: PipeGroup,
    pub pipe_expanded: Vec<String>,
    /// The status-line message, if one is up.
    pub toast: Option<String>,
    /// Whether a dialog is open over the screen.
    pub overlay_open: bool,
    /// Whether the preview pane holds the keys.
    pub preview_focus: bool,
    /// Whether the open item view was reached from the Command Center, or from the inbox.
    pub lp_origin: bool,
    pub from_inbox: bool,
    pub should_quit: bool,
}

impl<D> AppState<D> {
    /// The app as it starts: the Command Center up with every section on the strip and
    /// nothing selected, the lists empty and loading, all pull requests shown that are open
    /// or draft, pipelines grouped by pipeline, no sort, filter, toast or dialog.
    pub fn new(theme: String) -> (a: AppState<D>)
        ensures
            a.theme == theme,
            a.nav.wf() && a.nav.screen == ScreenKind::Launchpad && a.nav.active == 0,
            a.nav.visible@ == seq![true, true, true],
            a.nav.preview_hidden@ == seq![false, false, false],
            a.nav.sel@ == seq![None::<usize>, None, None],
            forall|k: int| 0 <= k < 3 ==> (#[trigger] a.nav.filters@[k])@.len() == 0,
            !a.nav.filtering,
            a.views.wf(),
            forall|k: int| 0 <= k < 3 ==> (#[trigger] a.views.views@[k])@.len() == 0 && a.views.view_idx@[k] == 0,
            a.lists.prs@.len() == 0 && a.lists.wis@.len() == 0 && a.lists.pipes@.len() == 0,
            a.lists.inbox.rows@.len() == 0 && a.lists.inbox.sel == 0,
            a.lists.pr_pool.open@.len() == 0 && a.lists.pr_pool.completed@.len() == 0 && !a.lists.pr_pool_loaded,
            a.lists.data_age is None,
            a.lists.status@ == lit_loading_status(),
            a.lists.loading && !a.lists.reloading,
            a.lp.side == 0 && a.lp.sel == (0usize, 0usize) && a.lp.anim == 0,
            !a.watch.pipe_seeded && !a.watch.approval_seeded,
            a.pr_filter == PullRequestFilter::All,
            a.pr_shown_statuses@ == seq![PullRequestStatus::Open, PullRequestStatus::Draft],
            a.wi_hidden_states@.len() == 0,
            a.pr_sort is None && a.wi_sort is None && a.pipe_sort is None,
            a.pipe_group == PipeGroup::Pipeline,
            a.pipe_expanded@.len() == 0,
            a.toast is None,
            !a.overlay_open && !a.preview_focus && !a.lp_origin && !a.from_inbox && !a.should_quit,
    {
        let mut shown: Vec<PullRequestStatus> = Vec::new();
        shown.push(PullRequestStatus::Open);
        shown.push(PullRequestStatus::Draft);
        AppState {
            theme,
            nav: Navigation::new(),
            views: ViewShelf::new(),
            lists: ListsState::new(),
            lp: LpCursor::new(),
            watch: PipeWatch::new(),
            pr_filter: PullRequestFilter::All,
            pr_shown_statuses: shown,
            wi_hidden_states: Vec::new(),
            pr_sort: None,
            wi_sort: None,
            pipe_sort: None,
            pipe_group: PipeGroup::Pipeline,
            pipe_expanded: Vec::new(),
            toast: None,
            overlay_open: false,
            preview_focus: false,
            lp_origin: false,
            from_inbox: false,
            should_quit: false,
        }
    }
}

/// Where an item view that is left goes back to: the inbox it was opened from, else the
/// Command Center it was opened from, else the section list.
pub open spec fn origin_of(from_inbox: bool, lp_origin: bool) -> ScreenKind {
    if from_inbox {
        ScreenKind::Inbox
    } else if lp_origin {
        ScreenKind::Launchpad
    } else {
        ScreenKind::List
    }
}

/// Where an item view that is left goes back to (see `origin_of`).
pub fn view_origin(from_inbox: bool, lp_origin: bool) -> (r: ScreenKind)
    ensures
        r == origin_of(from_inbox, lp_origin),
{
    if from_inbox {
        ScreenKind::Inbox
    } else if lp_origin {
        ScreenKind::Launchpad
    } else {
        ScreenKind::List
    }
}

impl<D> AppState<D> {
    /// An item view asked to be left (Escape or `q` with nothing pending): the screen goes
    /// back to where the view was opened from, and nothing else changes.
    pub fn leave_view(&mut self)
        ensures
            final(self).nav == (Navigation { screen: origin_of(old(self).from_inbox, old(self).lp_origin), ..old(self).nav }),
            final(self).overlay_open == old(self).overlay_open,
            final(self).should_quit == old(self).should_quit,
            final(self).from_inbox == old(self).from_inbox,
            final(self).lp_origin == old(self).lp_origin,
            final(self).toast == old(self).toast,
    {
        self.nav.screen = view_origin(self.from_inbox, self.lp_origin);
    }
}

/// Whether the library's state answers a route by itself: leaving, redrawing, the help
/// dialog, the inbox and the tab strip. The other routes need what only the app holds
/// (the wizard, a dialog's contents, the providers, the browser).
pub open spec fn answered_here(r: KeyRoute) -> bool {
    r is Quit || r is Redraw || r is Help || r is Inbox || r is SwitchTab
}

/// What a routed key does to the state (see `AppState::take_route`). `lens` holds each
/// section's filtered row count.
pub open spec fn route_taken<D>(o: AppState<D>, n: AppState<D>, r: KeyRoute, lens: Seq<usize>) -> bool {
    match r {
        KeyRoute::Quit => n == (AppState { should_quit: true, ..o }),
        KeyRoute::Redraw => n == o,
        KeyRoute::Help => n == (AppState { toast: None, overlay_open: true, ..o }),
        KeyRoute::Inbox => {
            &&& n.lists.inbox.rows == o.lists.inbox.rows
            &&& n.lists.inbox.sel == (if o.lists.inbox.sel >= o.lists.inbox.rows@.len() {
                if o.lists.inbox.rows@.len() == 0 {
                    0
                } else {
                    o.lists.inbox.rows@.len() - 1
                }
            } else {
                o.lists.inbox.sel as int
            })
            &&& n == (AppState {
                toast: None,
                nav: Navigation { screen: ScreenKind::Inbox, ..o.nav },
                lists: ListsState { inbox: n.lists.inbox, ..o.lists },
                ..o
            })
        },
        KeyRoute::SwitchTab(d) => {
            &&& went_to_tab(o.nav, n.nav, wrapped(o.nav.top_pos_spec(), d as int, o.nav.tab_count()), lens)
            &&& n == (AppState { toast: None, nav: n.nav, ..o })
        },
        _ => n == (AppState { toast: None, ..o }),
    }
}

impl<D> AppState<D> {
    /// Takes a routed key (see `routing::route_key`). Ctrl-C sets the app to quit and a
    /// resize changes nothing; any other key first clears the toast. The help dialog opens,
    /// `i` shows the inbox with its cursor kept on a row, and Tab / Shift-Tab walk the strip
    /// with wraparound. Returns whether the route was answered here; the others are left to
    /// the app.
    pub fn take_route(&mut self, r: KeyRoute, lens: &Vec<usize>) -> (done: bool)
        requires
            old(self).nav.wf(),
            lens@.len() == SECTION_COUNT,
            r matches KeyRoute::SwitchTab(d) ==> d + SECTION_COUNT < isize::MAX,
        ensures
            done == answered_here(r),
            final(self).nav.wf(),
            route_taken(*old(self), *final(self), r, lens@),
    {
        match r {
            KeyRoute::Quit => {
                self.should_quit = true;
                true
            },
            KeyRoute::Redraw => true,
            KeyRoute::Help => {
                self.toast = None;
                self.overlay_open = true;
                true
            },
            KeyRoute::Inbox => {
                self.toast = None;
                self.lists.inbox.clamp_inbox_sel();
                self.nav.screen = ScreenKind::Inbox;
                true
            },
            KeyRoute::SwitchTab(d) => {
                self.toast = None;
                let _t = self.nav.top_pos();
                self.nav.switch_tab(d, lens);
                true
            },
            _ => {
                self.toast = None;
                false
            },
        }
    }
}

impl<D> AppState<D> {
    /// The section list's facts for its actions menu: the active section, whether its quick
    /// filter is set, how many saved views it has, whether a row is selected, and whether a
    /// preview is showing (`has_preview`, which the app knows).
    pub fn list_facts(&self, has_preview: bool) -> (f: ScreenFacts)
        requires
            self.nav.wf(),
            self.views.wf(),
        ensures
            f == (ScreenFacts::List {
                section: self.nav.active,
                filter_active: self.nav.filters@[self.nav.active as int]@.len() > 0,
                saved_views: self.views.views@[self.nav.active as int]@.len() as usize,
                has_selection: self.nav.sel@[self.nav.active as int] is Some,
                has_preview,
            }),
    {
        let s = self.nav.active;
        ScreenFacts::List {
            section: s,
            filter_active: !self.nav.filters[s].as_str().is_empty(),
            saved_views: self.views.views[s].len(),
            has_selection: self.nav.sel[s].is_some(),
            has_preview,
        }
    }
}

/// The context and message a failure is logged with: fixed words, never a provider's own
/// error text (which may carry private addresses or tokens).
pub open spec fn lit_refresh_context() -> Seq<char> {
    "tui.refresh"@
}

pub open spec fn lit_action_context() -> Seq<char> {
    "tui.action"@
}

pub open spec fn lit_failure_message() -> Seq<char> {
    "operation failed"@
}

impl<D> AppState<D> {
    /// Folds a finished reload into the lists (see `reload::apply_reloaded`); when it
    /// brought errors the failure is logged once, with fixed words only. The rest of the
    /// state is untouched.
    pub fn apply_reloaded_with_logger<L>(&mut self, r: Reloaded, log_failure: L) -> (e: ReloadEffects)
        where
            L: FnOnce(&str, &str),
        requires
            forall|c: &str, m: &str| #[trigger] log_failure.requires((c, m)),
        ensures
            reload_applied(old(self).lists, final(self).lists, r, e),
            *final(self) == (AppState { lists: final(self).lists, ..*old(self) }),
            r.errors@.len() > 0 ==> exists|c: &str, m: &str|
                {
                    &&& c@ == lit_refresh_context()
                    &&& m@ == lit_failure_message()
                    &&& #[trigger] log_failure.ensures((c, m), ())
                },
    {
        let e = apply_reloaded(&mut self.lists, r);
        if e.log_failure {
            let c = "tui.refresh";
            let m = "operation failed";
            proof {
                reveal_strlit("tui.refresh");
                reveal_strlit("operation failed");
            }
            log_failure(c, m);
        }
        e
    }

    /// Shows an action's error in the status line, and logs the failure with fixed words
    /// only.
    pub fn toast_error_with_logger<L>(&mut self, msg: String, log_failure: L)
        where
            L: FnOnce(&str, &str),
        requires
            forall|c: &str, m: &str| #[trigger] log_failure.requires((c, m)),
        ensures
            *final(self) == (AppState { toast: Some(msg), ..*old(self) }),
            exists|c: &str, m: &str|
                {
                    &&& c@ == lit_action_context()
                    &&& m@ == lit_failure_message()
                    &&& #[trigger] log_failure.ensures((c, m), ())
                },
    {
        let c = "tui.action";
        let m = "operation failed";
        proof {
            reveal_strlit("tui.action");
            reveal_strlit("operation failed");
        }
        log_failure(c, m);
        self.toast = Some(msg);
    }
}

/// What a list key leaves for the app: nothing, opening the active section's selected row,
/// or a character command (see `routing::list_command`).
#[derive(Debug, Clone, Copy, PartialEq, Eq, Structural)]
pub enum ListKeyLeft {
    Nothing,
    Open,
    Char(char),
}

/// The cursor one row down (or up) a list of `len` rows, wrapping; the first row when none
/// is selected.
pub open spec fn stepped(sel: Option<usize>, len: int, down: bool) -> usize {
    match sel {
        Some(i) => (if down {
            (i + 1) % len
        } else {
            (i + len - 1) % len
        }) as usize,
        None => 0,
    }
}

/// The cursors after an arrow on the active section `a` of `len` rows.
pub open spec fn arrowed(sel: Seq<Option<usize>>, a: int, len: int, down: bool) -> Seq<Option<usize>> {
    if len == 0 {
        sel
    } else {
        sel.update(a, Some(stepped(sel[a], len, down)))
    }
}

/// What a list key does to the state `o` (now `n`), the list showing `len` rows and
/// `len_unfiltered` rows once its quick filter is cleared.
pub open spec fn list_key_taken<D>(o: AppState<D>, n: AppState<D>, k: ListKey, len: int, len_unfiltered: int, left: ListKeyLeft) -> bool {
    let a = o.nav.active as int;
    match k {
        ListKey::Leave => {
            &&& left is Nothing
            &&& if o.nav.filters@[a]@.len() > 0 {
                &&& n.nav.filters@[a]@.len() == 0
                &&& n.nav.filters@ == o.nav.filters@.update(a, n.nav.filters@[a])
                &&& n.nav.sel@ == o.nav.sel@.update(a, if len_unfiltered > 0 { Some(0usize) } else { None })
                &&& n == (AppState { nav: Navigation { filters: n.nav.filters, sel: n.nav.sel, list_scroll: 0, ..o.nav }, ..o })
            } else {
                n == (AppState { nav: Navigation { screen: ScreenKind::Launchpad, ..o.nav }, ..o })
            }
        },
        ListKey::Up | ListKey::Down => {
            let sel = arrowed(o.nav.sel@, a, len, k is Down);
            &&& left is Nothing
            &&& n.nav.sel@ == sel
            &&& n == (AppState {
                nav: Navigation {
                    sel: n.nav.sel,
                    list_scroll: view_top(
                        o.nav.list_scroll as int,
                        (match sel[a] {
                            Some(i) => i,
                            None => 0,
                        }) as u16 as int,
                        o.nav.content_h as int,
                    ) as u16,
                    ..o.nav
                },
                ..o
            })
        },
        ListKey::PageDown => {
            &&& left is Nothing
            &&& n == (AppState {
                nav: Navigation {
                    list_scroll: (if o.nav.list_scroll + 8 > u16::MAX { u16::MAX as int } else { o.nav.list_scroll + 8 }) as u16,
                    ..o.nav
                },
                ..o
            })
        },
        ListKey::PageUp => {
            &&& left is Nothing
            &&& n == (AppState {
                nav: Navigation {
                    list_scroll: (if o.nav.list_scroll < 8 { 0 } else { o.nav.list_scroll - 8 }) as u16,
                    ..o.nav
                },
                ..o
            })
        },
        ListKey::Open => left is Open && n == (AppState { lp_origin: false, from_inbox: false, ..o }),
        ListKey::Char(c) => left == ListKeyLeft::Char(c) && n == o,
        ListKey::Nothing => left is Nothing && n == o,
    }
}

impl<D> AppState<D> {
    /// A key on a section list. Esc clears the quick filter (the cursor back on the first
    /// row) or else goes back to the Command Center; the arrows move the cursor with
    /// wraparound and keep it in view; the page keys scroll by 8 rows. Enter marks the view
    /// about to open as reached from the list and leaves the opening to the app; so are
    /// character commands left.
    pub fn take_list_key(&mut self, k: ListKey, len: usize, len_unfiltered: usize) -> (left: ListKeyLeft)
        requires
            old(self).nav.wf(),
            old(self).nav.sel@[old(self).nav.active as int] matches Some(i) ==> i + len < usize::MAX,
            old(self).nav.list_scroll + (if old(self).nav.content_h == 0 {
                1
            } else {
                old(self).nav.content_h as int
            }) <= u16::MAX,
        ensures
            final(self).nav.wf(),
            list_key_taken(*old(self), *final(self), k, len as int, len_unfiltered as int, left),
    {
        match k {
            ListKey::Leave => {
                if self.nav.leave_section_list() {
                    self.nav.reset_filter_selection(len_unfiltered);
                }
                ListKeyLeft::Nothing
            },
            ListKey::Up => {
                self.nav.move_up(len);
                self.nav.ensure_visible();
                ListKeyLeft::Nothing
            },
            ListKey::Down => {
                self.nav.move_down(len);
                self.nav.ensure_visible();
                ListKeyLeft::Nothing
            },
            ListKey::PageDown => {
                self.nav.list_scroll = self.nav.list_scroll.saturating_add(8);
                ListKeyLeft::Nothing
            },
            ListKey::PageUp => {
                self.nav.list_scroll = self.nav.list_scroll.saturating_sub(8);
                ListKeyLeft::Nothing
            },
            ListKey::Open => {
                self.lp_origin = false;
                self.from_inbox = false;
                ListKeyLeft::Open
            },
            ListKey::Char(c) => ListKeyLeft::Char(c),
            ListKey::Nothing => ListKeyLeft::Nothing,
        }
    }
}

/// Escape or `q` on a pull-request view, away from the patch cursor and with no comment
/// pending, leaves the view unchanged and asks to leave it; leaving then lands where the
/// view was opened from: the inbox, else the Command Center, else the section list.
pub proof fn lemma_a_left_pr_view_lands_where_it_was_opened<D>(
    o: PrPanes,
    n: PrPanes,
    key: Key,
    commits: int,
    merged: bool,
    max: int,
    a: ViewKeyAction,
    s0: AppState<D>,
    s1: AppState<D>,
)
    requires
        key == Key::Escape || key == Key::Char('q'),
        !(o.tab == DIFF_TAB && o.diff.focus == DiffFocus::Patch),
        pr_keyed(o, n, key, commits, 0, merged, max, a),
        s1.nav == (Navigation { screen: origin_of(s0.from_inbox, s0.lp_origin), ..s0.nav }),
    ensures
        a is Leave,
        n == o,
        s1.nav.screen == (if s0.from_inbox {
            ScreenKind::Inbox
        } else if s0.lp_origin {
            ScreenKind::Launchpad
        } else {
            ScreenKind::List
        }),
{
}

/// Ctrl-C quits from any mode (the wizard, a dialog, the filter, any screen), and leaves
/// everything else as it was.
pub proof fn lemma_ctrl_c_quits_from_any_mode<D>(cx: KeyContext, o: AppState<D>, n: AppState<D>, lens: Seq<usize>)
    requires
        route_taken(o, n, route_of(cx, Key::Quit), lens),
    ensures
        n.should_quit,
        n == (AppState { should_quit: true, ..o }),
{
}

/// Any key but Ctrl-C and a resize dismisses the toast, whoever answers it.
pub proof fn lemma_a_key_dismisses_the_toast<D>(cx: KeyContext, key: Key, o: AppState<D>, n: AppState<D>, lens: Seq<usize>)
    requires
        key != Key::Quit,
        key != Key::Redraw,
        route_taken(o, n, route_of(cx, key), lens),
    ensures
        n.toast is None,
        n.should_quit == o.should_quit,
{
}

} // verus!
