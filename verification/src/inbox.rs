//! The notification inbox: its rows' read state, the unread count the header shows, the
//! cursor, and marking rows read.
use vstd::prelude::*;

use crate::cursor::{wrap_add, wrapped};
use crate::keys::Key;
use crate::text::str_eq;

verus! {

/// What the inbox reads of a notification row: where it came from, its id, and whether it
/// is unread.
pub struct InboxRow {
    pub connection_id: String,
    pub id: String,
    pub unread: bool,
}

/// The inbox: its rows and the selected one.
pub struct Inbox {
    pub rows: Vec<InboxRow>,
    pub sel: usize,
}

/// How many of `rows` are unread.
pub open spec fn unread_in(rows: Seq<InboxRow>) -> nat
    decreases rows.len(),
{
    if rows.len() == 0 {
        0
    } else {
        unread_in(rows.drop_last()) + if rows.last().unread {
            1nat
        } else {
            0nat
        }
    }
}

pub proof fn lemma_unread_in_bound(rows: Seq<InboxRow>)
    ensures
        unread_in(rows) <= rows.len(),
    decreases rows.len(),
{
    if rows.len() > 0 {
        lemma_unread_in_bound(rows.drop_last());
    }
}

/// Rows `a` and `b` are the same but for read state.
pub open spec fn same_row(a: InboxRow, b: InboxRow) -> bool {
    a.connection_id@ == b.connection_id@ && a.id@ == b.id@
}

/// `n` is `o` with the rows that `hit` picks marked read, and nothing else changed.
pub open spec fn marked_read(o: Seq<InboxRow>, n: Seq<InboxRow>, hit: spec_fn(InboxRow) -> bool) -> bool {
    &&& n.len() == o.len()
    &&& forall|i: int|
        0 <= i < o.len() ==> same_row(#[trigger] n[i], o[i]) && n[i].unread == (o[i].unread
            && !hit(o[i]))
}

/// Marking rows read never raises the unread count.
pub proof fn lemma_marking_read_lowers_the_count(
    o: Seq<InboxRow>,
    n: Seq<InboxRow>,
    hit: spec_fn(InboxRow) -> bool,
)
    requires
        marked_read(o, n, hit),
    ensures
        unread_in(n) <= unread_in(o),
    decreases o.len(),
{
    if o.len() > 0 {
        let o2 = o.drop_last();
        let n2 = n.drop_last();
        assert forall|i: int| 0 <= i < o2.len() implies same_row(#[trigger] n2[i], o2[i]) && n2[i].unread
            == (o2[i].unread && !hit(o2[i])) by {
            assert(n2[i] == n[i]);
            assert(o2[i] == o[i]);
        }
        lemma_marking_read_lowers_the_count(o2, n2, hit);
        assert(n[n.len() - 1].unread ==> o[o.len() - 1].unread);
    }
}

/// Rows that are all read count no unread.
pub proof fn lemma_all_read_counts_none(rows: Seq<InboxRow>)
    requires
        forall|i: int| 0 <= i < rows.len() ==> !(#[trigger] rows[i]).unread,
    ensures
        unread_in(rows) == 0,
    decreases rows.len(),
{
    if rows.len() > 0 {
        let r2 = rows.drop_last();
        assert forall|i: int| 0 <= i < r2.len() implies !(#[trigger] r2[i]).unread by {
            assert(r2[i] == rows[i]);
        }
        lemma_all_read_counts_none(r2);
        assert(!rows[rows.len() - 1].unread);
    }
}

fn read_copy(r: &InboxRow, unread: bool) -> (c: InboxRow)
    ensures
        same_row(c, *r),
        c.unread == unread,
{
    InboxRow { connection_id: r.connection_id.clone(), id: r.id.clone(), unread }
}

impl Inbox {
    /// Number of unread notifications: drives the header indicator.
    pub fn unread_count(&self) -> (n: usize)
        ensures
            n == unread_in(self.rows@),
    {
        let mut n: usize = 0;
        let mut i: usize = 0;
        while i < self.rows.len()
            invariant
                i <= self.rows@.len(),
                n == unread_in(self.rows@.take(i as int)),
                n <= i,
            decreases self.rows@.len() - i,
        {
            assert(self.rows@.take(i + 1).drop_last() =~= self.rows@.take(i as int));
            if self.rows[i].unread {
                n += 1;
            }
            i += 1;
        }
        assert(self.rows@.take(self.rows@.len() as int) =~= self.rows@);
        n
    }

    /// Moves the cursor by `delta` rows, wrapping at both ends (no rows: no move).
    pub fn inbox_move(&mut self, delta: isize)
        requires
            old(self).sel <= isize::MAX,
            isize::MIN <= old(self).sel + delta <= isize::MAX,
        ensures
            final(self).rows == old(self).rows,
            old(self).rows@.len() == 0 ==> final(self).sel == old(self).sel,
            old(self).rows@.len() > 0 ==> final(self).sel == wrapped(
                old(self).sel as int,
                delta as int,
                old(self).rows@.len() as int,
            ),
    {
        let n = self.rows.len();
        if n == 0 {
            return;
        }
        self.sel = wrap_add(self.sel, delta, n);
    }

    /// Keeps the cursor on a row after the rows were replaced: past the end it moves to
    /// the last one (0 when none is left).
    pub fn clamp_inbox_sel(&mut self)
        ensures
            final(self).rows == old(self).rows,
            final(self).sel == (if old(self).sel >= old(self).rows@.len() {
                if old(self).rows@.len() == 0 {
                    0
                } else {
                    old(self).rows@.len() - 1
                }
            } else {
                old(self).sel as int
            }),
    {
        if self.sel >= self.rows.len() {
            self.sel = if self.rows.len() == 0 {
                0
            } else {
                self.rows.len() - 1
            };
        }
    }

    /// The connection and id of the selected notification, if the cursor is on one.
    pub fn selected_key(&self) -> (r: Option<(String, String)>)
        ensures
            self.sel < self.rows@.len() ==> (r matches Some((c, i)) && c@ == self.rows@[self.sel as int].connection_id@
                && i@ == self.rows@[self.sel as int].id@),
            self.sel >= self.rows@.len() ==> r is None,
    {
        if self.sel < self.rows.len() {
            let r = &self.rows[self.sel];
            Some((r.connection_id.clone(), r.id.clone()))
        } else {
            None
        }
    }

    /// Marks read the notification `id` of connection `conn` (every row that is it), once
    /// the provider has accepted it.
    pub fn mark_read(&mut self, conn: &str, id: &str)
        ensures
            final(self).sel == old(self).sel,
            marked_read(old(self).rows@, final(self).rows@, |r: InboxRow| r.connection_id@ == conn@ && r.id@ == id@),
    {
        let mut out: Vec<InboxRow> = Vec::new();
        let mut i: usize = 0;
        while i < self.rows.len()
            invariant
                i <= self.rows@.len(),
                out@.len() == i,
                forall|j: int|
                    0 <= j < i ==> same_row(#[trigger] out@[j], self.rows@[j]) && out@[j].unread == (
                    self.rows@[j].unread && !(self.rows@[j].connection_id@ == conn@ && self.rows@[j].id@
                        == id@)),
            decreases self.rows@.len() - i,
        {
            let r = &self.rows[i];
            let is_it = str_eq(r.connection_id.as_str(), conn) && str_eq(r.id.as_str(), id);
            out.push(read_copy(r, r.unread && !is_it));
            i += 1;
        }
        self.rows = out;
    }

    /// Marks every notification read, once every provider has accepted it.
    pub fn mark_all_read(&mut self)
        ensures
            final(self).sel == old(self).sel,
            marked_read(old(self).rows@, final(self).rows@, |r: InboxRow| true),
            unread_in(final(self).rows@) == 0,
    {
        let mut out: Vec<InboxRow> = Vec::new();
        let mut i: usize = 0;
        while i < self.rows.len()
            invariant
                i <= self.rows@.len(),
                out@.len() == i,
                forall|j: int| 0 <= j < i ==> same_row(#[trigger] out@[j], self.rows@[j]) && !out@[j].unread,
            decreases self.rows@.len() - i,
        {
            out.push(read_copy(&self.rows[i], false));
            i += 1;
        }
        self.rows = out;
        proof {
            lemma_all_read_counts_none(self.rows@);
        }
    }
}


/// What a key in the inbox asks of the app.
#[derive(Debug, Clone, Copy, PartialEq, Eq, Structural)]
pub enum InboxKeyAction {
    /// Handled here (or ignored).
    Stay,
    /// Back to the Launchpad.
    Leave,
    /// Open the notification's item (and mark it read).
    Open,
    /// Open the notification's link in the browser.
    OpenLink,
    /// Mark the selected notification read.
    MarkRead,
    /// Mark every notification read.
    MarkAllRead,
    Reload,
}

impl Inbox {
    /// Keys in the inbox: the arrows move (wrapping), the rest go back to the app.
    pub fn on_inbox_key(&mut self, key: Key) -> (a: InboxKeyAction)
        requires
            old(self).sel < isize::MAX,
        ensures
            final(self).rows == old(self).rows,
            (key == Key::Up || key == Key::Char('k') || key == Key::Down || key == Key::Char('j')) ==> {
                let d: int = if key == Key::Up || key == Key::Char('k') {
                    -1
                } else {
                    1
                };
                &&& a == InboxKeyAction::Stay
                &&& old(self).rows@.len() == 0 ==> final(self).sel == old(self).sel
                &&& old(self).rows@.len() > 0 ==> final(self).sel == wrapped(
                    old(self).sel as int,
                    d,
                    old(self).rows@.len() as int,
                )
            },
            !(key == Key::Up || key == Key::Char('k') || key == Key::Down || key == Key::Char('j')) ==> {
                &&& final(self).sel == old(self).sel
                &&& a == (if key == Key::Escape {
                    InboxKeyAction::Leave
                } else if key == Key::Enter {
                    InboxKeyAction::Open
                } else if key == Key::Char('o') {
                    InboxKeyAction::OpenLink
                } else if key == Key::Char('x') {
                    InboxKeyAction::MarkRead
                } else if key == Key::Char('A') {
                    InboxKeyAction::MarkAllRead
                } else if key == Key::Char('r') {
                    InboxKeyAction::Reload
                } else {
                    InboxKeyAction::Stay
                })
            },
    {
        match key {
            Key::Escape => InboxKeyAction::Leave,
            Key::Up | Key::Char('k') => {
                self.inbox_move(-1);
                InboxKeyAction::Stay
            },
            Key::Down | Key::Char('j') => {
                self.inbox_move(1);
                InboxKeyAction::Stay
            },
            Key::Enter => InboxKeyAction::Open,
            Key::Char('o') => InboxKeyAction::OpenLink,
            Key::Char('x') => InboxKeyAction::MarkRead,
            Key::Char('A') => InboxKeyAction::MarkAllRead,
            Key::Char('r') => InboxKeyAction::Reload,
            _ => InboxKeyAction::Stay,
        }
    }
}

} // verus!
