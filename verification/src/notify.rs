//! The desktop-notification preferences and their checklist: which events ping, how the
//! checklist shows them, and what ticking it leaves.
use vstd::prelude::*;

verus! {

/// Which events fire a desktop notification.
#[derive(Debug, Clone, Copy, PartialEq, Eq, Structural)]
pub struct NotificationPrefs {
    pub pipeline_failed: bool,
    pub review_requested: bool,
    pub pr_approved: bool,
    pub pr_changes_requested: bool,
    pub pipeline_approval_needed: bool,
}

/// One line of a checklist: its id, its label, and whether it is ticked.
pub struct ToggleItem {
    pub id: String,
    pub label: String,
    pub on: bool,
}

impl NotificationPrefs {
    /// Whether any event pings.
    pub open spec fn any_spec(&self) -> bool {
        self.pipeline_failed || self.review_requested || self.pr_approved || self.pr_changes_requested
            || self.pipeline_approval_needed
    }

    /// Whether any event pings.
    pub fn any(&self) -> (r: bool)
        ensures
            r == self.any_spec(),
    {
        self.pipeline_failed || self.review_requested || self.pr_approved || self.pr_changes_requested
            || self.pipeline_approval_needed
    }
}

/// The checklist's ids, in order.
pub open spec fn event_ids() -> Seq<Seq<char>> {
    seq![
        "pipeline_failed"@,
        "review_requested"@,
        "pr_approved"@,
        "pr_changes_requested"@,
        "pipeline_approval_needed"@,
    ]
}

/// The checklist's labels, in order.
pub open spec fn event_labels() -> Seq<Seq<char>> {
    seq![
        "Pipeline failed"@,
        "Review requested"@,
        "Your PR approved"@,
        "Your PR: changes requested"@,
        "Pipeline approval needed"@,
    ]
}

/// Each event's setting in `p`, in the checklist's order.
pub open spec fn event_flags(p: NotificationPrefs) -> Seq<bool> {
    seq![
        p.pipeline_failed,
        p.review_requested,
        p.pr_approved,
        p.pr_changes_requested,
        p.pipeline_approval_needed,
    ]
}

/// Whether `ids` names the event `id`.
pub open spec fn ticks(ids: Seq<Seq<char>>, id: Seq<char>) -> bool {
    ids.contains(id)
}

/// The preferences a checklist leaves when `ids` are ticked.
pub open spec fn prefs_from(ids: Seq<Seq<char>>) -> NotificationPrefs {
    NotificationPrefs {
        pipeline_failed: ticks(ids, event_ids()[0]),
        review_requested: ticks(ids, event_ids()[1]),
        pr_approved: ticks(ids, event_ids()[2]),
        pr_changes_requested: ticks(ids, event_ids()[3]),
        pipeline_approval_needed: ticks(ids, event_ids()[4]),
    }
}

/// The ids of the ticked items, in order.
pub open spec fn ticked(items: Seq<ToggleItem>) -> Seq<Seq<char>>
    decreases items.len(),
{
    if items.len() == 0 {
        seq![]
    } else if items.last().on {
        ticked(items.drop_last()).push(items.last().id@)
    } else {
        ticked(items.drop_last())
    }
}

fn item(id: &str, label: &str, on: bool) -> (r: ToggleItem)
    ensures
        r.id@ == id@,
        r.label@ == label@,
        r.on == on,
{
    ToggleItem { id: id.to_owned(), label: label.to_owned(), on }
}

/// The notifications checklist: one item per event, ticked when it pings.
pub fn notification_items(p: &NotificationPrefs) -> (r: Vec<ToggleItem>)
    ensures
        r@.len() == 5,
        forall|i: int|
            0 <= i < 5 ==> (#[trigger] r@[i]).id@ == event_ids()[i] && r@[i].label@ == event_labels()[i]
                && r@[i].on == event_flags(*p)[i],
{
    let mut r: Vec<ToggleItem> = Vec::new();
    r.push(item("pipeline_failed", "Pipeline failed", p.pipeline_failed));
    r.push(item("review_requested", "Review requested", p.review_requested));
    r.push(item("pr_approved", "Your PR approved", p.pr_approved));
    r.push(item("pr_changes_requested", "Your PR: changes requested", p.pr_changes_requested));
    r.push(item("pipeline_approval_needed", "Pipeline approval needed", p.pipeline_approval_needed));
    r
}

fn ticks_exec(ids: &Vec<String>, id: &str) -> (r: bool)
    ensures
        r == exists|i: int| 0 <= i < ids@.len() && #[trigger] ids@[i]@ == id@,
{
    let mut i: usize = 0;
    while i < ids.len()
        invariant
            i <= ids@.len(),
            forall|j: int| 0 <= j < i ==> (#[trigger] ids@[j])@ != id@,
        decreases ids@.len() - i,
    {
        if crate::text::str_eq(ids[i].as_str(), id) {
            return true;
        }
        i += 1;
    }
    false
}

/// The ids `ids` as character sequences.
pub open spec fn id_views(ids: Seq<String>) -> Seq<Seq<char>> {
    ids.map_values(|s: String| s@)
}

proof fn lemma_ticks_views(ids: Seq<String>, id: Seq<char>)
    ensures
        ticks(id_views(ids), id) == exists|i: int| 0 <= i < ids.len() && #[trigger] ids[i]@ == id,
{
    if ticks(id_views(ids), id) {
        let w = choose|w: int| 0 <= w < id_views(ids).len() && id_views(ids)[w] == id;
        assert(ids[w]@ == id);
    }
    if exists|i: int| 0 <= i < ids.len() && #[trigger] ids[i]@ == id {
        let w = choose|w: int| 0 <= w < ids.len() && #[trigger] ids[w]@ == id;
        assert(id_views(ids)[w] == id);
    }
}

/// Applies the notifications checklist: the ticked `ids` become the enabled set.
pub fn prefs_from_ticked(ids: &Vec<String>) -> (p: NotificationPrefs)
    ensures
        p == prefs_from(id_views(ids@)),
{
    proof {
        lemma_ticks_views(ids@, "pipeline_failed"@);
        lemma_ticks_views(ids@, "review_requested"@);
        lemma_ticks_views(ids@, "pr_approved"@);
        lemma_ticks_views(ids@, "pr_changes_requested"@);
        lemma_ticks_views(ids@, "pipeline_approval_needed"@);
    }
    NotificationPrefs {
        pipeline_failed: ticks_exec(ids, "pipeline_failed"),
        review_requested: ticks_exec(ids, "review_requested"),
        pr_approved: ticks_exec(ids, "pr_approved"),
        pr_changes_requested: ticks_exec(ids, "pr_changes_requested"),
        pipeline_approval_needed: ticks_exec(ids, "pipeline_approval_needed"),
    }
}

/// The status line after the checklist is applied.
pub fn notifications_toast(p: &NotificationPrefs) -> (r: &'static str)
    ensures
        p.any_spec() ==> r@ == "Notifications updated"@,
        !p.any_spec() ==> r@ == "All notifications off"@,
{
    if p.any() {
        "Notifications updated"
    } else {
        "All notifications off"
    }
}

/// Opening the checklist and applying it unchanged leaves the preferences as they were.
pub proof fn lemma_checklist_round_trip(p: NotificationPrefs, items: Seq<ToggleItem>)
    requires
        items.len() == 5,
        forall|i: int| 0 <= i < 5 ==> (#[trigger] items[i]).id@ == event_ids()[i] && items[i].on == event_flags(p)[i],
    ensures
        prefs_from(ticked(items)) == p,
{
    reveal_strlit("pipeline_failed");
    reveal_strlit("review_requested");
    reveal_strlit("pr_approved");
    reveal_strlit("pr_changes_requested");
    reveal_strlit("pipeline_approval_needed");
    let ids = event_ids();
    assert(ids[0].len() == 15 && ids[1].len() == 16 && ids[2].len() == 11 && ids[3].len() == 20 && ids[4].len()
        == 24);
    assert(ids[0] != ids[1] && ids[0] != ids[2] && ids[0] != ids[3] && ids[0] != ids[4]);
    assert(ids[1] != ids[2] && ids[1] != ids[3] && ids[1] != ids[4]);
    assert(ids[2] != ids[3] && ids[2] != ids[4]);
    assert(ids[3] != ids[4]);
    assert forall|k: int| 0 <= k < 5 implies ticks(ticked(items), #[trigger] ids[k]) == items[k].on by {
        lemma_ticked_holds(items, 5, ids[k], k);
    }
    assert(ticks(ticked(items), ids[0]) == items[0].on);
    assert(ticks(ticked(items), ids[1]) == items[1].on);
    assert(ticks(ticked(items), ids[2]) == items[2].on);
    assert(ticks(ticked(items), ids[3]) == items[3].on);
    assert(ticks(ticked(items), ids[4]) == items[4].on);
}

/// An id whose only item is at `k` is ticked exactly when that item is.
proof fn lemma_ticked_holds(items: Seq<ToggleItem>, n: int, id: Seq<char>, k: int)
    requires
        0 <= k < n == items.len(),
        items[k].id@ == id,
        forall|j: int| 0 <= j < n && j != k ==> (#[trigger] items[j]).id@ != id,
    ensures
        ticked(items).contains(id) == items[k].on,
    decreases n,
{
    let prev = items.drop_last();
    let tp = ticked(prev);
    if k == n - 1 {
        lemma_ticked_absent(prev, id);
        if items.last().on {
            assert(ticked(items) == tp.push(id));
            assert(ticked(items)[tp.len() as int] == id);
        }
    } else {
        assert forall|j: int| 0 <= j < n - 1 && j != k implies (#[trigger] prev[j]).id@ != id by {
            assert(prev[j] == items[j]);
        }
        lemma_ticked_holds(prev, n - 1, id, k);
        assert(items[n - 1].id@ != id);
        if items.last().on {
            assert(ticked(items) == tp.push(items.last().id@));
            if ticked(items).contains(id) {
                let w = choose|w: int| 0 <= w < ticked(items).len() && ticked(items)[w] == id;
                if w < tp.len() {
                    assert(tp[w] == id);
                }
            }
            if tp.contains(id) {
                let w = choose|w: int| 0 <= w < tp.len() && tp[w] == id;
                assert(ticked(items)[w] == id);
            }
        }
    }
}

/// An id no item has is never ticked.
proof fn lemma_ticked_absent(items: Seq<ToggleItem>, id: Seq<char>)
    requires
        forall|j: int| 0 <= j < items.len() ==> (#[trigger] items[j]).id@ != id,
    ensures
        !ticked(items).contains(id),
    decreases items.len(),
{
    if items.len() > 0 {
        let prev = items.drop_last();
        assert forall|j: int| 0 <= j < prev.len() implies (#[trigger] prev[j]).id@ != id by {
            assert(prev[j] == items[j]);
        }
        lemma_ticked_absent(prev, id);
        let tp = ticked(prev);
        if items.last().on {
            assert(items[items.len() - 1].id@ != id);
            if ticked(items).contains(id) {
                let w = choose|w: int| 0 <= w < ticked(items).len() && ticked(items)[w] == id;
                if w < tp.len() {
                    assert(tp[w] == id);
                }
            }
        }
    }
}

} // verus!
