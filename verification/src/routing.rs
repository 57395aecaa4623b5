//! Where a key goes: the modes that capture input, the keys that answer everywhere, the
//! tab strip, and then the screen on display.
use vstd::prelude::*;

use crate::keys::Key;
use crate::tabs::{Navigation, ScreenKind};

verus! {

/// What the key router reads of the app.
#[derive(Debug, Clone, Copy, PartialEq, Eq, Structural)]
pub struct KeyContext {
    /// The first-run wizard is open.
    pub wizard: bool,
    /// A dialog, picker or input is open.
    pub overlay: bool,
    /// The quick-filter input is open.
    pub filtering: bool,
    pub screen: ScreenKind,
    /// On the pipeline drill-in: the log pane's `/` prompt is open.
    pub log_search: bool,
    /// On the pipeline drill-in: the log pane holds the keys.
    pub logs_have_keys: bool,
    /// On a pull-request view: line comments are buffered and not yet submitted.
    pub pending_comments: bool,
}

/// Who answers a key.
#[derive(Debug, Clone, Copy, PartialEq, Eq, Structural)]
pub enum KeyRoute {
    /// Ctrl-C: leave the app.
    Quit,
    /// A resize: redraw, nothing else.
    Redraw,
    Wizard,
    Overlay,
    Filter,
    /// The log pane's prompt, or its next/previous match.
    PipelineLogs,
    Palette,
    Help,
    NotificationsToggle,
    Inbox,
    Dashboard,
    Feedback,
    /// Add a connection.
    SetupPicker,
    /// Ask before walking away from unsubmitted comments.
    PendingExitPrompt,
    /// Walk the tab strip by this many tabs.
    SwitchTab(isize),
    /// Offer the key to the preview pane, then to the screen on display.
    Screen,
}

/// Where a key is routed (see `route_key`).
pub open spec fn route_of(cx: KeyContext, key: Key) -> KeyRoute {
    if key == Key::Quit {
        KeyRoute::Quit
    } else if key == Key::Redraw {
        KeyRoute::Redraw
    } else if cx.wizard {
        KeyRoute::Wizard
    } else if cx.overlay {
        KeyRoute::Overlay
    } else if cx.filtering {
        KeyRoute::Filter
    } else if cx.screen == ScreenKind::Pipeline && (cx.log_search || (cx.logs_have_keys && (key
        == Key::Char('n') || key == Key::Char('N')))) {
        KeyRoute::PipelineLogs
    } else if key == Key::Ctrl('k') || key == Key::Ctrl('p') {
        KeyRoute::Palette
    } else if key == Key::Char('?') {
        KeyRoute::Help
    } else if key == Key::Char('N') {
        KeyRoute::NotificationsToggle
    } else if key == Key::Char('i') && (cx.screen == ScreenKind::List || cx.screen
        == ScreenKind::Launchpad) {
        KeyRoute::Inbox
    } else if key == Key::Char('B') {
        KeyRoute::Dashboard
    } else if key == Key::Char('F') {
        KeyRoute::Feedback
    } else if key == Key::Char('n') {
        KeyRoute::SetupPicker
    } else if key == Key::Tab || key == Key::BackTab {
        if cx.screen == ScreenKind::PrView && cx.pending_comments {
            KeyRoute::PendingExitPrompt
        } else {
            KeyRoute::SwitchTab(
                if key == Key::Tab {
                    1isize
                } else {
                    -1isize
                },
            )
        }
    } else {
        KeyRoute::Screen
    }
}

/// Routes a key. Ctrl-C quits from any mode and a resize only redraws; then the wizard,
/// any overlay, the quick filter and the log pane's prompt capture every key; then the
/// keys that answer everywhere; Tab and Shift-Tab walk the strip (but not away from
/// unsubmitted comments); the rest goes to the preview and the screen.
pub fn route_key(cx: KeyContext, key: Key) -> (r: KeyRoute)
    ensures
        r == route_of(cx, key),
{
    if key == Key::Quit {
        return KeyRoute::Quit;
    }
    if key == Key::Redraw {
        return KeyRoute::Redraw;
    }
    if cx.wizard {
        return KeyRoute::Wizard;
    }
    if cx.overlay {
        return KeyRoute::Overlay;
    }
    if cx.filtering {
        return KeyRoute::Filter;
    }
    if cx.screen == ScreenKind::Pipeline && (cx.log_search || (cx.logs_have_keys && (key
        == Key::Char('n') || key == Key::Char('N')))) {
        return KeyRoute::PipelineLogs;
    }
    if key == Key::Ctrl('k') || key == Key::Ctrl('p') {
        return KeyRoute::Palette;
    }
    if key == Key::Char('?') {
        return KeyRoute::Help;
    }
    if key == Key::Char('N') {
        return KeyRoute::NotificationsToggle;
    }
    if key == Key::Char('i') && (cx.screen == ScreenKind::List || cx.screen == ScreenKind::Launchpad) {
        return KeyRoute::Inbox;
    }
    if key == Key::Char('B') {
        return KeyRoute::Dashboard;
    }
    if key == Key::Char('F') {
        return KeyRoute::Feedback;
    }
    if key == Key::Char('n') {
        return KeyRoute::SetupPicker;
    }
    if key == Key::Tab || key == Key::BackTab {
        if cx.screen == ScreenKind::PrView && cx.pending_comments {
            return KeyRoute::PendingExitPrompt;
        }
        return KeyRoute::SwitchTab(
            if key == Key::Tab {
                1
            } else {
                -1
            },
        );
    }
    KeyRoute::Screen
}

/// Ctrl-C is the one key that leaves the app: no other key, on any screen and in any mode,
/// is routed to quitting.
pub proof fn lemma_only_ctrl_c_quits(cx: KeyContext, key: Key)
    ensures
        (route_of(cx, key) == KeyRoute::Quit) <==> key == Key::Quit,
{
}

/// The wizard, an open overlay and the quick filter each take every key but Ctrl-C and a
/// resize.
pub proof fn lemma_input_modes_capture(cx: KeyContext, key: Key)
    requires
        cx.wizard || cx.overlay || cx.filtering,
        key != Key::Quit,
        key != Key::Redraw,
    ensures
        route_of(cx, key) == (if cx.wizard {
            KeyRoute::Wizard
        } else if cx.overlay {
            KeyRoute::Overlay
        } else {
            KeyRoute::Filter
        }),
{
}

/// Outside the input modes, Tab and Shift-Tab walk the tab strip from every screen (an open
/// item view included), except away from a pull request's unsubmitted comments, where they
/// ask first.
pub proof fn lemma_tab_walks_the_strip(cx: KeyContext, key: Key)
    requires
        key == Key::Tab || key == Key::BackTab,
        !cx.wizard,
        !cx.overlay,
        !cx.filtering,
        !(cx.screen == ScreenKind::Pipeline && cx.log_search),
    ensures
        route_of(cx, key) == (if cx.screen == ScreenKind::PrView && cx.pending_comments {
            KeyRoute::PendingExitPrompt
        } else if key == Key::Tab {
            KeyRoute::SwitchTab(1isize)
        } else {
            KeyRoute::SwitchTab(-1isize)
        }),
{
}

/// Whether routing `key` dismisses the one-shot status message (every key but Ctrl-C and
/// a resize).
pub fn clears_toast(key: Key) -> (r: bool)
    ensures
        r == (key != Key::Quit && key != Key::Redraw),
{
    key != Key::Quit && key != Key::Redraw
}

/// What a key does on a section list.
#[derive(Debug, Clone, Copy, PartialEq, Eq, Structural)]
pub enum ListKey {
    /// Esc: clear the quick filter, else back to the Launchpad.
    Leave,
    Up,
    Down,
    PageDown,
    PageUp,
    /// Enter: open the selected row.
    Open,
    /// A character command.
    Char(char),
    /// Nothing (the arrows sideways switch nothing here).
    Nothing,
}

/// Which screen answers a key that reached the screens.
#[derive(Debug, Clone, Copy, PartialEq, Eq, Structural)]
pub enum ScreenRoute {
    PipelineScreen,
    Config,
    /// Enter on the Commits tab: show that commit's diff.
    CommitDiff,
    PrView,
    /// `u` on a work item: pick a new state.
    WiState,
    /// `@` on a work item: pick an assignee.
    WiAssign,
    WiView,
    Launchpad,
    Inbox,
    List(ListKey),
}

/// The list's reading of a key (see `list_key`).
pub open spec fn list_key_of(key: Key) -> ListKey {
    match key {
        Key::Escape => ListKey::Leave,
        Key::Up => ListKey::Up,
        Key::Down => ListKey::Down,
        Key::PageDown => ListKey::PageDown,
        Key::PageUp => ListKey::PageUp,
        Key::Enter => ListKey::Open,
        Key::Char(c) => ListKey::Char(c),
        _ => ListKey::Nothing,
    }
}

/// How a section list reads a key.
pub fn list_key(key: Key) -> (r: ListKey)
    ensures
        r == list_key_of(key),
{
    match key {
        Key::Escape => ListKey::Leave,
        Key::Up => ListKey::Up,
        Key::Down => ListKey::Down,
        Key::PageDown => ListKey::PageDown,
        Key::PageUp => ListKey::PageUp,
        Key::Enter => ListKey::Open,
        Key::Char(c) => ListKey::Char(c),
        _ => ListKey::Nothing,
    }
}

/// Which screen answers a key (see `screen_route`).
pub open spec fn screen_route_of(screen: ScreenKind, key: Key, pr_tab: usize) -> ScreenRoute {
    match screen {
        ScreenKind::Pipeline => ScreenRoute::PipelineScreen,
        ScreenKind::Config => ScreenRoute::Config,
        ScreenKind::PrView => if key == Key::Enter && pr_tab == 1 {
            ScreenRoute::CommitDiff
        } else {
            ScreenRoute::PrView
        },
        ScreenKind::WiView => if key == Key::Char('u') {
            ScreenRoute::WiState
        } else if key == Key::Char('@') {
            ScreenRoute::WiAssign
        } else {
            ScreenRoute::WiView
        },
        ScreenKind::Launchpad => ScreenRoute::Launchpad,
        ScreenKind::Inbox => ScreenRoute::Inbox,
        ScreenKind::List => ScreenRoute::List(list_key_of(key)),
    }
}

/// Full-screen views answer their own keys; on a pull request Enter on the Commits tab
/// (`pr_tab`) drills into the commit, and on a work item `u` and `@` open their pickers.
pub fn screen_route(screen: ScreenKind, key: Key, pr_tab: usize) -> (r: ScreenRoute)
    ensures
        r == screen_route_of(screen, key, pr_tab),
{
    match screen {
        ScreenKind::Pipeline => ScreenRoute::PipelineScreen,
        ScreenKind::Config => ScreenRoute::Config,
        ScreenKind::PrView => if key == Key::Enter && pr_tab == 1 {
            ScreenRoute::CommitDiff
        } else {
            ScreenRoute::PrView
        },
        ScreenKind::WiView => if key == Key::Char('u') {
            ScreenRoute::WiState
        } else if key == Key::Char('@') {
            ScreenRoute::WiAssign
        } else {
            ScreenRoute::WiView
        },
        ScreenKind::Launchpad => ScreenRoute::Launchpad,
        ScreenKind::Inbox => ScreenRoute::Inbox,
        ScreenKind::List => ScreenRoute::List(list_key(key)),
    }
}

/// A character command on a section list.
#[derive(Debug, Clone, Copy, PartialEq, Eq, Structural)]
pub enum ListCommand {
    /// `q`: clear the quick filter, else back to the Launchpad.
    Leave,
    Down,
    Up,
    /// A number key: this strip position (0 = Launchpad).
    SetTab(usize),
    Reload,
    NextTheme,
    StartFilter,
    SortPicker,
    OpenSelected,
    SectionsToggle,
    Connections,
    /// The previous (`-1`) or next (`1`) saved view.
    SwitchView(isize),
    SaveView,
    DeleteView,
    PrStatusToggle,
    WiStatesToggle,
    PipelineTrigger,
    CycleGroup,
    EnterPipelineLine,
    /// Collapse (`false`) or expand (`true`) every pipeline group.
    AllGroups(bool),
    RepoScope,
    Nothing,
}

/// The command a character gives on the list of section `active` (see `list_command`).
pub open spec fn list_command_of(c: char, active: usize) -> ListCommand {
    if c == 'q' {
        ListCommand::Leave
    } else if c == 'j' {
        ListCommand::Down
    } else if c == 'k' {
        ListCommand::Up
    } else if c == '1' {
        ListCommand::SetTab(0)
    } else if c == '2' {
        ListCommand::SetTab(1)
    } else if c == '3' {
        ListCommand::SetTab(2)
    } else if c == '4' {
        ListCommand::SetTab(3)
    } else if c == 'r' {
        ListCommand::Reload
    } else if c == 't' {
        ListCommand::NextTheme
    } else if c == '/' {
        ListCommand::StartFilter
    } else if c == 'S' {
        ListCommand::SortPicker
    } else if c == 'o' {
        ListCommand::OpenSelected
    } else if c == 'v' {
        ListCommand::SectionsToggle
    } else if c == 'C' {
        ListCommand::Connections
    } else if c == '[' {
        ListCommand::SwitchView(-1isize)
    } else if c == ']' {
        ListCommand::SwitchView(1isize)
    } else if c == 'V' {
        ListCommand::SaveView
    } else if c == 'X' {
        ListCommand::DeleteView
    } else if c == 'f' && active == 0 {
        ListCommand::PrStatusToggle
    } else if c == 'f' && active == 1 {
        ListCommand::WiStatesToggle
    } else if c == 'T' && active == 2 {
        ListCommand::PipelineTrigger
    } else if c == 'G' && active == 2 {
        ListCommand::CycleGroup
    } else if c == ' ' && active == 2 {
        ListCommand::EnterPipelineLine
    } else if c == 'z' && active == 2 {
        ListCommand::AllGroups(false)
    } else if c == 'Z' && active == 2 {
        ListCommand::AllGroups(true)
    } else if c == 'g' {
        ListCommand::RepoScope
    } else {
        ListCommand::Nothing
    }
}

/// Character commands on a section list: movement, the number keys for the strip, the
/// pickers and saved views, and the Pipelines-only commands (trigger, grouping, expand).
pub fn list_command(c: char, active: usize) -> (r: ListCommand)
    ensures
        r == list_command_of(c, active),
{
    match c {
        'q' => ListCommand::Leave,
        'j' => ListCommand::Down,
        'k' => ListCommand::Up,
        '1' => ListCommand::SetTab(0),
        '2' => ListCommand::SetTab(1),
        '3' => ListCommand::SetTab(2),
        '4' => ListCommand::SetTab(3),
        'r' => ListCommand::Reload,
        't' => ListCommand::NextTheme,
        '/' => ListCommand::StartFilter,
        'S' => ListCommand::SortPicker,
        'o' => ListCommand::OpenSelected,
        'v' => ListCommand::SectionsToggle,
        'C' => ListCommand::Connections,
        '[' => ListCommand::SwitchView(-1),
        ']' => ListCommand::SwitchView(1),
        'V' => ListCommand::SaveView,
        'X' => ListCommand::DeleteView,
        'f' if active == 0 => ListCommand::PrStatusToggle,
        'f' if active == 1 => ListCommand::WiStatesToggle,
        'T' if active == 2 => ListCommand::PipelineTrigger,
        'G' if active == 2 => ListCommand::CycleGroup,
        ' ' if active == 2 => ListCommand::EnterPipelineLine,
        'z' if active == 2 => ListCommand::AllGroups(false),
        'Z' if active == 2 => ListCommand::AllGroups(true),
        'g' => ListCommand::RepoScope,
        _ => ListCommand::Nothing,
    }
}

/// `a + b`, stopping at `u16::MAX`.
pub open spec fn sat_add_u16(a: int, b: int) -> int {
    if a + b > u16::MAX {
        u16::MAX as int
    } else {
        a + b
    }
}

/// `a - b`, stopping at 0.
pub open spec fn sat_sub(a: int, b: int) -> int {
    if a >= b {
        a - b
    } else {
        0
    }
}

impl Navigation {
    /// A page key on a section list scrolls it by eight rows, never past either end of
    /// the `u16` range.
    pub fn scroll_list_page(&mut self, down: bool)
        ensures
            final(self).list_scroll == (if down {
                sat_add_u16(old(self).list_scroll as int, 8)
            } else {
                sat_sub(old(self).list_scroll as int, 8)
            }),
            *final(self) == (Navigation { list_scroll: final(self).list_scroll, ..*old(self) }),
    {
        self.list_scroll = if down {
            if self.list_scroll > u16::MAX - 8 {
                u16::MAX
            } else {
                self.list_scroll + 8
            }
        } else if self.list_scroll >= 8 {
            self.list_scroll - 8
        } else {
            0
        };
    }
}

} // verus!
