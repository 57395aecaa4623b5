//! The actions the command palette offers on each screen, each with the key that
//! performs it. An entry is listed only when its key would do something on that screen,
//! so the palette and the keyboard can't drift; pure navigation is left out.
use vstd::prelude::*;

use crate::keys::Key;
use crate::pipeline::{actionable, is_active_spec, PipelineView};
use crate::text::str_eq;

verus! {

/// What a screen's entries depend on.
pub enum ScreenFacts {
    /// The Command Center; whether the cursor is on an item (not a header or a "more" slot).
    Launchpad { entry_selected: bool },
    /// A section list: which section, whether its quick filter is set, how many saved views
    /// it has, whether a row is selected, and whether a preview is showing.
    List { section: usize, filter_active: bool, saved_views: usize, has_selection: bool, has_preview: bool },
    /// A pull request: merged or not, the tab (3 is the diff), whether the diff's line
    /// cursor is active, unsubmitted comments, commits, and a link.
    PrView { merged: bool, tab: usize, patch_focus: bool, pending: bool, has_commits: bool, has_url: bool },
    /// A work item, and whether it has a link.
    WiView { has_url: bool },
    /// The pipeline drill-in (see `pipeline_facts`).
    Pipeline {
        split: bool,
        logs_open: bool,
        logs_have_keys: bool,
        has_query: bool,
        run_active: bool,
        can_approve: bool,
        has_url: bool,
    },
    /// The inbox: for the selected notification, whether it has a link.
    Inbox { row_url: Option<bool> },
    /// The connections list, and whether a connection is selected.
    Config { has_connection: bool },
}

pub open spec fn entry(label: &'static str, key: Key) -> (Seq<char>, Key) {
    (label@, key)
}

pub open spec fn when(c: bool, s: Seq<(Seq<char>, Key)>) -> Seq<(Seq<char>, Key)> {
    if c {
        s
    } else {
        seq![]
    }
}

pub open spec fn launchpad_spec(entry_selected: bool) -> Seq<(Seq<char>, Key)> {
    when(entry_selected, seq![entry("Dismiss from Command Center", Key::Char('D'))]) + seq![
        entry("Refresh", Key::Char('r')),
        entry("Connections", Key::Char('C')),
        entry("Cycle theme", Key::Char('t')),
    ]
}

pub open spec fn section_entries(section: usize) -> Seq<(Seq<char>, Key)> {
    if section == 0 {
        seq![entry("Filter by status", Key::Char('f'))]
    } else if section == 1 {
        seq![entry("Choose which states to show", Key::Char('f'))]
    } else {
        seq![
            entry("Trigger a run", Key::Char('T')),
            entry("Cycle grouping", Key::Char('G')),
            entry("Collapse every group", Key::Char('z')),
            entry("Expand every group", Key::Char('Z')),
        ]
    }
}

pub open spec fn list_spec(section: usize, filter_active: bool, saved_views: usize, has_selection: bool, has_preview: bool) -> Seq<(Seq<char>, Key)> {
    let s = when(filter_active, seq![entry("Clear quick filter", Key::Escape)]);
    let s = s.push(entry("Quick filter", Key::Char('/'))) + section_entries(section);
    let s = s.push(entry("Sort by column", Key::Char('S'))).push(entry("Repositories to fetch", Key::Char('g')));
    let s = s + when(saved_views > 1, seq![entry("Previous saved view", Key::Char('['))]) + when(
        saved_views > 1,
        seq![entry("Next saved view", Key::Char(']'))],
    );
    let s = s.push(entry("Save current view", Key::Char('V'))) + when(
        saved_views > 1,
        seq![entry("Delete current view", Key::Char('X'))],
    );
    let s = s + when(has_selection, seq![entry("Open selected in browser", Key::Char('o'))]) + when(
        has_preview,
        seq![entry("Focus the preview pane", Key::Char('p'))],
    );
    s.push(entry("Preview pane on / off", Key::Char('P'))).push(entry("Choose visible tabs", Key::Char('v'))).push(
        entry("Refresh", Key::Char('r')),
    ).push(entry("Cycle theme", Key::Char('t'))).push(entry("Connections", Key::Char('C')))
}

pub open spec fn pr_view_spec(merged: bool, tab: usize, patch_focus: bool, pending: bool, has_commits: bool, has_url: bool) -> Seq<(Seq<char>, Key)> {
    (if merged {
        seq![entry("Revert", Key::Char('R'))]
    } else {
        seq![entry("Approve", Key::Char('a')), entry("Request changes", Key::Char('x')), entry("Merge\u{2026}", Key::Char('m'))]
    }) + seq![
        if tab == 3 && patch_focus {
            entry("Comment on this line", Key::Char('c'))
        } else {
            entry("Comment", Key::Char('c'))
        },
    ] + when(tab == 0 || tab == 3, seq![entry("Reply to thread", Key::Char('r'))]) + when(
        pending,
        seq![entry("Submit review", Key::Char('s'))],
    ) + when(tab == 1 && has_commits, seq![entry("Open the commit's diff", Key::Enter)]) + when(
        tab == 3,
        when(!patch_focus, seq![entry("Line cursor in the patch", Key::Enter)]) + seq![
            entry("Mark file viewed", Key::Char('v')),
            entry("Next comment thread", Key::Char(']')),
            entry("Previous comment thread", Key::Char('[')),
        ],
    ) + when(has_url, seq![entry("Open in browser", Key::Char('o'))])
}

pub open spec fn wi_view_spec(has_url: bool) -> Seq<(Seq<char>, Key)> {
    seq![
        entry("Update state", Key::Char('u')),
        entry("Assign\u{2026}", Key::Char('@')),
        entry("Edit title / description", Key::Char('e')),
        entry("Comment", Key::Char('c')),
    ] + when(has_url, seq![entry("Open in browser", Key::Char('o'))])
}

pub open spec fn pipeline_spec(split: bool, logs_open: bool, logs_have_keys: bool, has_query: bool, run_active: bool, can_approve: bool, has_url: bool) -> Seq<(Seq<char>, Key)> {
    if logs_open && logs_have_keys {
        when(split, seq![entry("Move the keys to the tree", Key::Char('w'))]) + seq![entry("Search the log", Key::Char('/'))]
            + when(has_query, seq![entry("Next match", Key::Char('n')), entry("Previous match", Key::Char('N'))]) + seq![
            entry("Toggle follow", Key::Char('f')),
            entry("Jump to the first error", Key::Char('E')),
            entry("Close logs", Key::Escape),
        ]
    } else {
        (if logs_open {
            when(split, seq![entry("Move the keys to the logs", Key::Char('w'))]) + seq![entry("Close logs", Key::Char('L'))]
        } else {
            seq![entry("View the job's logs", Key::Char('L'))]
        }) + seq![entry("Trigger a run", Key::Char('T'))] + when(run_active, seq![entry("Cancel the run", Key::Char('X'))])
            + when(can_approve, seq![entry("Approve / reject a gate", Key::Char('A'))]) + when(
            has_url,
            seq![entry("Open the job in browser", Key::Char('o'))],
        )
    }
}

pub open spec fn inbox_spec(row_url: Option<bool>) -> Seq<(Seq<char>, Key)> {
    (match row_url {
        Some(u) => when(u, seq![entry("Open in browser", Key::Char('o'))]) + seq![
            entry("Mark read", Key::Char('x')),
            entry("Mark all read", Key::Char('A')),
        ],
        None => seq![],
    }) + seq![entry("Refresh", Key::Char('r'))]
}

pub open spec fn config_spec(has_connection: bool) -> Seq<(Seq<char>, Key)> {
    seq![
        entry("Add a connection", Key::Char('a')),
        entry("Bind Pull Requests", Key::Char('p')),
        entry("Bind Work Items", Key::Char('w')),
        entry("Pipeline subscriptions", Key::Char('s')),
    ] + when(has_connection, seq![entry("Remove connection", Key::Char('x'))])
}

/// The palette's entries for a screen, in order; `preview_focus` is set when a view was
/// focused from the list's preview pane.
pub open spec fn actions_spec(f: ScreenFacts, preview_focus: bool) -> Seq<(Seq<char>, Key)> {
    let body = match f {
        ScreenFacts::Launchpad { entry_selected } => launchpad_spec(entry_selected),
        ScreenFacts::List { section, filter_active, saved_views, has_selection, has_preview } => list_spec(
            section,
            filter_active,
            saved_views,
            has_selection,
            has_preview,
        ),
        ScreenFacts::PrView { merged, tab, patch_focus, pending, has_commits, has_url } => pr_view_spec(
            merged,
            tab,
            patch_focus,
            pending,
            has_commits,
            has_url,
        ),
        ScreenFacts::WiView { has_url } => wi_view_spec(has_url),
        ScreenFacts::Pipeline { split, logs_open, logs_have_keys, has_query, run_active, can_approve, has_url } => pipeline_spec(
            split,
            logs_open,
            logs_have_keys,
            has_query,
            run_active,
            can_approve,
            has_url,
        ),
        ScreenFacts::Inbox { row_url } => inbox_spec(row_url),
        ScreenFacts::Config { has_connection } => config_spec(has_connection),
    };
    let item_view = f is PrView || f is WiView || f is Pipeline;
    body + when(
        preview_focus && item_view,
        seq![entry("Back to the list", Key::Char('p')), entry("Preview pane on / off", Key::Char('P'))],
    )
}

/// The entries with their labels read as text.
pub open spec fn entries_view(v: Seq<(&'static str, Key)>) -> Seq<(Seq<char>, Key)> {
    v.map_values(|e: (&'static str, Key)| (e.0@, e.1))
}

fn push(out: &mut Vec<(&'static str, Key)>, label: &'static str, key: Key)
    ensures
        entries_view(final(out)@) == entries_view(old(out)@).push((label@, key)),
{
    out.push((label, key));
    assert(entries_view(out@) =~= entries_view(old(out)@).push((label@, key)));
}

fn c(ch: char) -> (k: Key)
    ensures
        k == Key::Char(ch),
{
    Key::Char(ch)
}

fn launchpad_actions(entry_selected: bool) -> (out: Vec<(&'static str, Key)>)
    ensures
        entries_view(out@) == launchpad_spec(entry_selected),
{
    let mut out: Vec<(&'static str, Key)> = Vec::new();
    if entry_selected {
        push(&mut out, "Dismiss from Command Center", c('D'));
    }
    push(&mut out, "Refresh", c('r'));
    push(&mut out, "Connections", c('C'));
    push(&mut out, "Cycle theme", c('t'));
    assert(entries_view(out@) =~= launchpad_spec(entry_selected));
    out
}

fn push_if(out: &mut Vec<(&'static str, Key)>, cond: bool, label: &'static str, key: Key)
    ensures
        entries_view(final(out)@) == entries_view(old(out)@) + when(cond, seq![(label@, key)]),
{
    if cond {
        push(out, label, key);
    } else {
        assert(entries_view(out@) + when(cond, seq![(label@, key)]) =~= entries_view(out@));
    }
}

fn list_actions(section: usize, filter_active: bool, saved_views: usize, has_selection: bool, has_preview: bool) -> (out: Vec<(&'static str, Key)>)
    ensures
        entries_view(out@) == list_spec(section, filter_active, saved_views, has_selection, has_preview),
{
    let mut out: Vec<(&'static str, Key)> = Vec::new();
    assert(entries_view(out@) =~= seq![]);
    push_if(&mut out, filter_active, "Clear quick filter", Key::Escape);
    assert(entries_view(out@) == seq![] + when(filter_active, seq![entry("Clear quick filter", Key::Escape)]));
    assert(seq![] + when(filter_active, seq![entry("Clear quick filter", Key::Escape)]) =~= when(
        filter_active,
        seq![entry("Clear quick filter", Key::Escape)],
    ));
    push(&mut out, "Quick filter", c('/'));
    let ghost head = entries_view(out@);
    if section == 0 {
        push(&mut out, "Filter by status", c('f'));
        assert(entries_view(out@) =~= head + section_entries(section));
    } else if section == 1 {
        push(&mut out, "Choose which states to show", c('f'));
        assert(entries_view(out@) =~= head + section_entries(section));
    } else {
        push(&mut out, "Trigger a run", c('T'));
        push(&mut out, "Cycle grouping", c('G'));
        push(&mut out, "Collapse every group", c('z'));
        push(&mut out, "Expand every group", c('Z'));
        assert(entries_view(out@) =~= head + section_entries(section));
    }
    push(&mut out, "Sort by column", c('S'));
    push(&mut out, "Repositories to fetch", c('g'));
    push_if(&mut out, saved_views > 1, "Previous saved view", c('['));
    push_if(&mut out, saved_views > 1, "Next saved view", c(']'));
    push(&mut out, "Save current view", c('V'));
    push_if(&mut out, saved_views > 1, "Delete current view", c('X'));
    push_if(&mut out, has_selection, "Open selected in browser", c('o'));
    push_if(&mut out, has_preview, "Focus the preview pane", c('p'));
    push(&mut out, "Preview pane on / off", c('P'));
    push(&mut out, "Choose visible tabs", c('v'));
    push(&mut out, "Refresh", c('r'));
    push(&mut out, "Cycle theme", c('t'));
    push(&mut out, "Connections", c('C'));
    out
}

fn pr_view_actions(merged: bool, tab: usize, patch_focus: bool, pending: bool, has_commits: bool, has_url: bool) -> (out: Vec<(&'static str, Key)>)
    ensures
        entries_view(out@) == pr_view_spec(merged, tab, patch_focus, pending, has_commits, has_url),
{
    let mut out: Vec<(&'static str, Key)> = Vec::new();
    if merged {
        push(&mut out, "Revert", c('R'));
    } else {
        push(&mut out, "Approve", c('a'));
        push(&mut out, "Request changes", c('x'));
        push(&mut out, "Merge\u{2026}", c('m'));
    }
    if tab == 3 && patch_focus {
        push(&mut out, "Comment on this line", c('c'));
    } else {
        push(&mut out, "Comment", c('c'));
    }
    if tab == 0 || tab == 3 {
        push(&mut out, "Reply to thread", c('r'));
    }
    if pending {
        push(&mut out, "Submit review", c('s'));
    }
    if tab == 1 && has_commits {
        push(&mut out, "Open the commit's diff", Key::Enter);
    }
    if tab == 3 {
        if !patch_focus {
            push(&mut out, "Line cursor in the patch", Key::Enter);
        }
        push(&mut out, "Mark file viewed", c('v'));
        push(&mut out, "Next comment thread", c(']'));
        push(&mut out, "Previous comment thread", c('['));
    }
    if has_url {
        push(&mut out, "Open in browser", c('o'));
    }
    assert(entries_view(out@) =~= pr_view_spec(merged, tab, patch_focus, pending, has_commits, has_url));
    out
}

fn wi_view_actions(has_url: bool) -> (out: Vec<(&'static str, Key)>)
    ensures
        entries_view(out@) == wi_view_spec(has_url),
{
    let mut out: Vec<(&'static str, Key)> = Vec::new();
    push(&mut out, "Update state", c('u'));
    push(&mut out, "Assign\u{2026}", c('@'));
    push(&mut out, "Edit title / description", c('e'));
    push(&mut out, "Comment", c('c'));
    if has_url {
        push(&mut out, "Open in browser", c('o'));
    }
    assert(entries_view(out@) =~= wi_view_spec(has_url));
    out
}

fn pipeline_actions(split: bool, logs_open: bool, logs_have_keys: bool, has_query: bool, run_active: bool, can_approve: bool, has_url: bool) -> (out: Vec<(&'static str, Key)>)
    ensures
        entries_view(out@) == pipeline_spec(split, logs_open, logs_have_keys, has_query, run_active, can_approve, has_url),
{
    let mut out: Vec<(&'static str, Key)> = Vec::new();
    if logs_open && logs_have_keys {
        if split {
            push(&mut out, "Move the keys to the tree", c('w'));
        }
        push(&mut out, "Search the log", c('/'));
        if has_query {
            push(&mut out, "Next match", c('n'));
            push(&mut out, "Previous match", c('N'));
        }
        push(&mut out, "Toggle follow", c('f'));
        push(&mut out, "Jump to the first error", c('E'));
        push(&mut out, "Close logs", Key::Escape);
    } else {
        if logs_open {
            if split {
                push(&mut out, "Move the keys to the logs", c('w'));
            }
            push(&mut out, "Close logs", c('L'));
        } else {
            push(&mut out, "View the job's logs", c('L'));
        }
        push(&mut out, "Trigger a run", c('T'));
        if run_active {
            push(&mut out, "Cancel the run", c('X'));
        }
        if can_approve {
            push(&mut out, "Approve / reject a gate", c('A'));
        }
        if has_url {
            push(&mut out, "Open the job in browser", c('o'));
        }
    }
    assert(entries_view(out@) =~= pipeline_spec(split, logs_open, logs_have_keys, has_query, run_active, can_approve, has_url));
    out
}

fn inbox_actions(row_url: Option<bool>) -> (out: Vec<(&'static str, Key)>)
    ensures
        entries_view(out@) == inbox_spec(row_url),
{
    let mut out: Vec<(&'static str, Key)> = Vec::new();
    if let Some(u) = row_url {
        if u {
            push(&mut out, "Open in browser", c('o'));
        }
        push(&mut out, "Mark read", c('x'));
        push(&mut out, "Mark all read", c('A'));
    }
    push(&mut out, "Refresh", c('r'));
    assert(entries_view(out@) =~= inbox_spec(row_url));
    out
}

fn config_actions(has_connection: bool) -> (out: Vec<(&'static str, Key)>)
    ensures
        entries_view(out@) == config_spec(has_connection),
{
    let mut out: Vec<(&'static str, Key)> = Vec::new();
    push(&mut out, "Add a connection", c('a'));
    push(&mut out, "Bind Pull Requests", c('p'));
    push(&mut out, "Bind Work Items", c('w'));
    push(&mut out, "Pipeline subscriptions", c('s'));
    if has_connection {
        push(&mut out, "Remove connection", c('x'));
    }
    assert(entries_view(out@) =~= config_spec(has_connection));
    out
}

/// The palette's entries for the screen described by `facts`.
pub fn context_actions(facts: &ScreenFacts, preview_focus: bool) -> (out: Vec<(&'static str, Key)>)
    ensures
        entries_view(out@) == actions_spec(*facts, preview_focus),
{
    let mut out = match facts {
        ScreenFacts::Launchpad { entry_selected } => launchpad_actions(*entry_selected),
        ScreenFacts::List { section, filter_active, saved_views, has_selection, has_preview } => list_actions(
            *section,
            *filter_active,
            *saved_views,
            *has_selection,
            *has_preview,
        ),
        ScreenFacts::PrView { merged, tab, patch_focus, pending, has_commits, has_url } => pr_view_actions(
            *merged,
            *tab,
            *patch_focus,
            *pending,
            *has_commits,
            *has_url,
        ),
        ScreenFacts::WiView { has_url } => wi_view_actions(*has_url),
        ScreenFacts::Pipeline { split, logs_open, logs_have_keys, has_query, run_active, can_approve, has_url } => pipeline_actions(
            *split,
            *logs_open,
            *logs_have_keys,
            *has_query,
            *run_active,
            *can_approve,
            *has_url,
        ),
        ScreenFacts::Inbox { row_url } => inbox_actions(*row_url),
        ScreenFacts::Config { has_connection } => config_actions(*has_connection),
    };
    let ghost body = entries_view(out@);
    let item_view = match facts {
        ScreenFacts::PrView { .. } | ScreenFacts::WiView { .. } | ScreenFacts::Pipeline { .. } => true,
        _ => false,
    };
    if preview_focus && item_view {
        push(&mut out, "Back to the list", c('p'));
        push(&mut out, "Preview pane on / off", c('P'));
    }
    assert(entries_view(out@) =~= actions_spec(*facts, preview_focus));
    out
}

/// The drill-in's facts, read off the view; `has_url` says whether the selected node (or
/// the run) has a link.
pub fn pipeline_facts(v: &PipelineView, has_url: bool) -> (f: ScreenFacts)
    ensures
        f == (ScreenFacts::Pipeline {
            split: v.log_split,
            logs_open: v.logs is Some,
            logs_have_keys: v.logs is Some && (v.log_focus || !v.log_split),
            has_query: v.logs matches Some(l) && l.query is Some,
            run_active: is_active_spec(v.run.status),
            can_approve: v.can_respond_approvals && actionable(v.approvals@).len() > 0,
            has_url,
        }),
{
    let gates = v.actionable_approvals();
    ScreenFacts::Pipeline {
        split: v.log_split,
        logs_open: v.logs.is_some(),
        logs_have_keys: v.logs_have_keys(),
        has_query: match &v.logs {
            Some(l) => l.query.is_some(),
            None => false,
        },
        run_active: crate::pipeline::is_active(v.run.status),
        can_approve: v.can_respond_approvals && gates.len() > 0,
        has_url,
    }
}


/// Whether the help section named `name` describes the screen `f` (a section's keys run
/// only on the screen it describes).
pub open spec fn help_applies(name: Seq<char>, f: ScreenFacts) -> bool {
    if name == "Global"@ {
        f is List || f is Launchpad
    } else if name == "Saved views"@ {
        f is List
    } else if name == "Pull Requests (list)"@ {
        f matches ScreenFacts::List { section, .. } && section == 0
    } else if name == "Work Items (list)"@ {
        f matches ScreenFacts::List { section, .. } && section == 1
    } else if name == "Pipelines"@ {
        (f matches ScreenFacts::List { section, .. } && section == 2) || f is Pipeline
    } else if name == "PR view (after Enter)"@ {
        f is PrView
    } else if name == "Work Item view (after Enter)"@ {
        f is WiView
    } else if name == "Config / connections"@ {
        f is Config
    } else {
        false
    }
}

/// The keys `entries` bind, in order.
pub open spec fn entry_keys(entries: Seq<(Seq<char>, Key)>) -> Seq<Key> {
    entries.map_values(|e: (Seq<char>, Key)| e.1)
}

/// The keys the global help section adds wherever it runs: the palette, help, the
/// dashboard and feedback; next/previous match or add-connection and notifications unless
/// the log pane holds the keys; the inbox from a list or the Launchpad.
pub open spec fn global_keys(f: ScreenFacts) -> Seq<Key> {
    seq![Key::Ctrl('k'), Key::Char('?'), Key::Char('B'), Key::Char('F')] + (if f matches ScreenFacts::Pipeline {
        logs_have_keys,
        ..
    } && logs_have_keys {
        seq![]
    } else {
        seq![Key::Char('n'), Key::Char('N')]
    }) + (if f is List || f is Launchpad {
        seq![Key::Char('i')]
    } else {
        seq![]
    })
}

/// The keys an entry of help section `name` may run from the palette on screen `f`.
pub open spec fn runnable_spec(name: Seq<char>, f: ScreenFacts, preview_focus: bool) -> Seq<Key> {
    (if help_applies(name, f) {
        entry_keys(actions_spec(f, preview_focus))
    } else {
        seq![]
    }) + (if name == "Global"@ {
        global_keys(f)
    } else {
        seq![]
    })
}

/// Keys an entry from help section `name` may run from the palette. The same letter means
/// different things on different screens (`r` refreshes a list but replies in a pull
/// request), so a section's keys run only on the screen that section describes; "Global"
/// adds the keys answered everywhere.
pub fn runnable_keys(name: &str, facts: &ScreenFacts, preview_focus: bool) -> (r: Vec<Key>)
    ensures
        r@ == runnable_spec(name@, *facts, preview_focus),
{
    let global = str_eq(name, "Global");
    let applies = if global {
        match facts {
            ScreenFacts::List { .. } | ScreenFacts::Launchpad { .. } => true,
            _ => false,
        }
    } else if str_eq(name, "Saved views") {
        match facts {
            ScreenFacts::List { .. } => true,
            _ => false,
        }
    } else if str_eq(name, "Pull Requests (list)") {
        match facts {
            ScreenFacts::List { section, .. } => *section == 0,
            _ => false,
        }
    } else if str_eq(name, "Work Items (list)") {
        match facts {
            ScreenFacts::List { section, .. } => *section == 1,
            _ => false,
        }
    } else if str_eq(name, "Pipelines") {
        match facts {
            ScreenFacts::List { section, .. } => *section == 2,
            ScreenFacts::Pipeline { .. } => true,
            _ => false,
        }
    } else if str_eq(name, "PR view (after Enter)") {
        match facts {
            ScreenFacts::PrView { .. } => true,
            _ => false,
        }
    } else if str_eq(name, "Work Item view (after Enter)") {
        match facts {
            ScreenFacts::WiView { .. } => true,
            _ => false,
        }
    } else if str_eq(name, "Config / connections") {
        match facts {
            ScreenFacts::Config { .. } => true,
            _ => false,
        }
    } else {
        false
    };
    let mut keys: Vec<Key> = Vec::new();
    if applies {
        let entries = context_actions(facts, preview_focus);
        let mut i: usize = 0;
        while i < entries.len()
            invariant
                i <= entries@.len(),
                keys@ == entry_keys(entries_view(entries@.take(i as int))),
            decreases entries@.len() - i,
        {
            keys.push(entries[i].1);
            i += 1;
            assert(entry_keys(entries_view(entries@.take(i as int))) =~= entry_keys(
                entries_view(entries@.take(i - 1)),
            ).push(entries@[i - 1].1));
        }
        assert(entries@.take(entries@.len() as int) =~= entries@);
    }
    let ghost first = keys@;
    if global {
        keys.push(Key::Ctrl('k'));
        keys.push(Key::Char('?'));
        keys.push(Key::Char('B'));
        keys.push(Key::Char('F'));
        let pane_keys = match facts {
            ScreenFacts::Pipeline { logs_have_keys, .. } => *logs_have_keys,
            _ => false,
        };
        if !pane_keys {
            keys.push(Key::Char('n'));
            keys.push(Key::Char('N'));
        }
        match facts {
            ScreenFacts::List { .. } | ScreenFacts::Launchpad { .. } => keys.push(Key::Char('i')),
            _ => {},
        }
    }
    proof {
        reveal_strlit("Global");
        reveal_strlit("Saved views");
        reveal_strlit("Pull Requests (list)");
        reveal_strlit("Work Items (list)");
        reveal_strlit("Pipelines");
        reveal_strlit("PR view (after Enter)");
        reveal_strlit("Work Item view (after Enter)");
        reveal_strlit("Config / connections");
        assert(applies == help_applies(name@, *facts));
        if global {
            assert(keys@ =~= first + global_keys(*facts));
        } else {
            assert(keys@ =~= first);
        }
    }
    keys
}

} // verus!
