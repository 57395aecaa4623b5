//! Row comparators as `Ordering`s, for callers that sort with std: the same order the
//! lists sort by (see `order` and the sign functions of each list).
use vstd::prelude::*;

use std::cmp::Ordering;

use crate::lists::{lemma_pr_keys, lemma_wi_keys, pr_sign, pr_sort_key, wi_sign, wi_sort_key, PullRequest, WorkItem};
use crate::order::key_sign_exec;
use crate::pipes::{lemma_pipe_keys, pipe_sign, pipe_sort_key, PipeRow};

verus! {

/// The `Ordering` a sign stands for.
pub open spec fn ordering_of(s: int) -> Ordering {
    if s < 0 {
        Ordering::Less
    } else if s > 0 {
        Ordering::Greater
    } else {
        Ordering::Equal
    }
}

pub open spec fn reversed(o: Ordering) -> Ordering {
    match o {
        Ordering::Less => Ordering::Greater,
        Ordering::Equal => Ordering::Equal,
        Ordering::Greater => Ordering::Less,
    }
}

fn ordering_from(s: i8) -> (r: Ordering)
    ensures
        s < 0 ==> r == Ordering::Less,
        s > 0 ==> r == Ordering::Greater,
        s == 0 ==> r == Ordering::Equal,
{
    if s < 0 {
        Ordering::Less
    } else if s > 0 {
        Ordering::Greater
    } else {
        Ordering::Equal
    }
}

/// Applies the sort direction to a comparison.
pub fn ordered(o: Ordering, desc: bool) -> (r: Ordering)
    ensures
        r == (if desc {
            reversed(o)
        } else {
            o
        }),
{
    if desc {
        match o {
            Ordering::Less => Ordering::Greater,
            Ordering::Equal => Ordering::Equal,
            Ordering::Greater => Ordering::Less,
        }
    } else {
        o
    }
}

/// How two runs compare on column `key`.
pub fn pipe_cmp(a: &PipeRow, b: &PipeRow, key: &str) -> (r: Ordering)
    ensures
        r == ordering_of(pipe_sign(*a, *b, key@)),
{
    let ka = pipe_sort_key(a, key);
    let kb = pipe_sort_key(b, key);
    proof {
        lemma_pipe_keys(ka, kb, *a, *b, key@);
    }
    ordering_from(key_sign_exec(&ka, &kb))
}

/// How two pull requests compare on column `key`.
pub fn pr_cmp(a: &PullRequest, b: &PullRequest, key: &str) -> (r: Ordering)
    ensures
        r == ordering_of(pr_sign(*a, *b, key@)),
{
    let ka = pr_sort_key(a, key);
    let kb = pr_sort_key(b, key);
    proof {
        lemma_pr_keys(ka, kb, *a, *b, key@);
    }
    ordering_from(key_sign_exec(&ka, &kb))
}

/// How two work items compare on column `key`.
pub fn wi_cmp(a: &WorkItem, b: &WorkItem, key: &str) -> (r: Ordering)
    ensures
        r == ordering_of(wi_sign(*a, *b, key@)),
{
    let ka = wi_sort_key(a, key);
    let kb = wi_sort_key(b, key);
    proof {
        lemma_wi_keys(ka, kb, *a, *b, key@);
    }
    ordering_from(key_sign_exec(&ka, &kb))
}

} // verus!
