//! Dropping a connection's rows from the lists on screen: when it is removed, and when it
//! is unbound from a section, the rows it contributed go at once, ahead of the refetch.
use vstd::prelude::*;

use crate::config::listed;
use crate::inbox::InboxRow;
use crate::lists::{PrRow, WiRow};
use crate::pipes::PipeRow;
use crate::text::str_eq;

verus! {

/// A row tagged with the connection it came from.
pub trait Tagged {
    spec fn conn_view(&self) -> Seq<char>;

    /// The id of the connection the row came from.
    fn connection(&self) -> (r: &String)
        ensures
            r@ == self.conn_view(),
    ;
}

impl Tagged for PrRow {
    open spec fn conn_view(&self) -> Seq<char> {
        self.connection_id@
    }

    fn connection(&self) -> (r: &String) {
        &self.connection_id
    }
}

impl Tagged for WiRow {
    open spec fn conn_view(&self) -> Seq<char> {
        self.connection_id@
    }

    fn connection(&self) -> (r: &String) {
        &self.connection_id
    }
}

impl Tagged for PipeRow {
    open spec fn conn_view(&self) -> Seq<char> {
        self.connection_id@
    }

    fn connection(&self) -> (r: &String) {
        &self.connection_id
    }
}

impl Tagged for InboxRow {
    open spec fn conn_view(&self) -> Seq<char> {
        self.connection_id@
    }

    fn connection(&self) -> (r: &String) {
        &self.connection_id
    }
}

/// The rows of `rows` whose connection `keep` accepts, in order.
pub open spec fn rows_kept<T: Tagged>(rows: Seq<T>, keep: spec_fn(Seq<char>) -> bool) -> Seq<T>
    decreases rows.len(),
{
    if rows.len() == 0 {
        seq![]
    } else {
        let prev = rows_kept(rows.drop_last(), keep);
        if keep(rows.last().conn_view()) {
            prev.push(rows.last())
        } else {
            prev
        }
    }
}

/// Keeps the rows whose connection `keep` accepts (`accept` says it of each row), in
/// order.
fn retain_rows<T: Tagged>(rows: &mut Vec<T>, accept: &Vec<bool>, keep: Ghost<spec_fn(Seq<char>) -> bool>)
    requires
        accept@.len() == old(rows)@.len(),
        forall|i: int| 0 <= i < accept@.len() ==> #[trigger] accept@[i] == keep@(old(rows)@[i].conn_view()),
    ensures
        final(rows)@ == rows_kept(old(rows)@, keep@),
{
    let ghost orig = rows@;
    assert(orig.len() == rows.len());
    let mut rest: Vec<T> = Vec::new();
    std::mem::swap(&mut rest, rows);
    let mut i: usize = 0;
    while rest.len() > 0
        invariant
            i + rest@.len() == orig.len(),
            orig.len() <= usize::MAX,
            rest@ == orig.skip(i as int),
            accept@.len() == orig.len(),
            forall|q: int| 0 <= q < accept@.len() ==> #[trigger] accept@[q] == keep@(orig[q].conn_view()),
            rows@ == rows_kept(orig.take(i as int), keep@),
        decreases rest@.len(),
    {
        let x = rest.remove(0);
        assert(orig.take(i + 1).drop_last() =~= orig.take(i as int));
        assert(orig.take(i + 1).last() == orig[i as int]);
        assert(orig.skip(i as int)[0] == orig[i as int]);
        assert(orig.skip(i as int).remove(0) =~= orig.skip(i + 1));
        if accept[i] {
            rows.push(x);
        }
        i += 1;
    }
    assert(orig.take(orig.len() as int) =~= orig);
}

/// Drops the rows of connections no longer bound to a section: a row stays when its
/// connection is among `bound`.
pub fn retain_bound<T: Tagged>(rows: &mut Vec<T>, bound: &Vec<String>)
    ensures
        final(rows)@ == rows_kept(old(rows)@, |c: Seq<char>| listed(bound@, c)),
{
    let ghost keep = |c: Seq<char>| listed(bound@, c);
    let mut accept: Vec<bool> = Vec::new();
    let mut i: usize = 0;
    while i < rows.len()
        invariant
            i <= rows@.len(),
            accept@.len() == i,
            keep == (|c: Seq<char>| listed(bound@, c)),
            forall|q: int| 0 <= q < i ==> #[trigger] accept@[q] == keep(rows@[q].conn_view()),
        decreases rows@.len() - i,
    {
        let c = rows[i].connection();
        let mut found = false;
        let mut j: usize = 0;
        while j < bound.len()
            invariant
                j <= bound@.len(),
                c@ == rows@[i as int].conn_view(),
                found == exists|q: int| 0 <= q < j && #[trigger] bound@[q]@ == c@,
            decreases bound@.len() - j,
        {
            if str_eq(bound[j].as_str(), c.as_str()) {
                found = true;
            }
            j += 1;
        }
        accept.push(found);
        i += 1;
    }
    retain_rows(rows, &accept, Ghost(keep));
}

/// Drops every row of connection `id`.
pub fn drop_connection<T: Tagged>(rows: &mut Vec<T>, id: &str)
    ensures
        final(rows)@ == rows_kept(old(rows)@, |c: Seq<char>| c != id@),
{
    let ghost keep = |c: Seq<char>| c != id@;
    let mut accept: Vec<bool> = Vec::new();
    let mut i: usize = 0;
    while i < rows.len()
        invariant
            i <= rows@.len(),
            accept@.len() == i,
            keep == (|c: Seq<char>| c != id@),
            forall|q: int| 0 <= q < i ==> #[trigger] accept@[q] == keep(rows@[q].conn_view()),
        decreases rows@.len() - i,
    {
        let c = rows[i].connection();
        accept.push(!str_eq(c.as_str(), id));
        i += 1;
    }
    retain_rows(rows, &accept, Ghost(keep));
}

/// Rows kept for connections are rows of those connections, and every row of an accepted
/// connection stays: nothing else is dropped.
pub proof fn lemma_rows_kept<T: Tagged>(rows: Seq<T>, keep: spec_fn(Seq<char>) -> bool)
    ensures
        forall|i: int| 0 <= i < rows_kept(rows, keep).len() ==> keep(#[trigger] rows_kept(rows, keep)[i].conn_view()),
        rows_kept(rows, keep).len() == rows.len() <==> forall|i: int| 0 <= i < rows.len() ==> keep(#[trigger] rows[i].conn_view()),
        rows_kept(rows, keep).len() <= rows.len(),
    decreases rows.len(),
{
    if rows.len() > 0 {
        let prev = rows.drop_last();
        lemma_rows_kept(prev, keep);
        let k = rows_kept(rows, keep);
        let pk = rows_kept(prev, keep);
        if keep(rows.last().conn_view()) {
            assert forall|i: int| 0 <= i < k.len() implies keep(#[trigger] k[i].conn_view()) by {
                if i < pk.len() {
                    assert(k[i] == pk[i]);
                }
            }
        }
        if forall|i: int| 0 <= i < rows.len() ==> keep(#[trigger] rows[i].conn_view()) {
            assert forall|i: int| 0 <= i < prev.len() implies keep(#[trigger] prev[i].conn_view()) by {
                assert(prev[i] == rows[i]);
            }
            assert(keep(rows[rows.len() - 1].conn_view()));
        }
        if k.len() == rows.len() {
            assert(pk.len() == prev.len());
            assert forall|i: int| 0 <= i < rows.len() implies keep(#[trigger] rows[i].conn_view()) by {
                if i < prev.len() {
                    assert(prev[i] == rows[i]);
                }
            }
        }
    }
}

} // verus!
