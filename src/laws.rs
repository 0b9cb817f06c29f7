//! Properties that hold across calls or for every input.

use vstd::prelude::*;
use crate::processo::{appears, fold_sprints, suggested_target, Processo};
use crate::quantity::{div_round, TARGET_BOUND};
use crate::sprint::{fold_items, Measure, Sprint, SprintItem};
use crate::store::{min_int, page_of, pages_upto};

verus! {

proof fn lemma_pages_prefix<T>(s: Seq<T>, k: int, n: nat)
    requires
        k > 0,
    ensures
        pages_upto(s, k, n) == s.subrange(0, min_int(n * k, s.len() as int)),
    decreases n,
{
    if n > 0 {
        lemma_pages_prefix(s, k, (n - 1) as nat);
        assert((n - 1) * k + k == n * k) by (nonlinear_arith);
        assert((n - 1) * k >= 0) by (nonlinear_arith)
            requires
                n >= 1,
                k > 0,
        ;
        let a = min_int((n - 1) * k, s.len() as int);
        let b = min_int(n * k, s.len() as int);
        assert(s.subrange(0, a) + s.subrange(a, b) == s.subrange(0, b));
    }
}

/// Pagination is complete: reading pages `0, 1, 2, ...` of size `k > 0`
/// until the first page shorter than `k` yields every document exactly
/// once, in order. For `n` documents the pages before page `n / k` are
/// full, page `n / k` is the first short one, and pages `0` to `n / k`
/// together are the whole collection.
pub proof fn lemma_pages_cover<T>(s: Seq<T>, k: int)
    requires
        k > 0,
    ensures
        forall|p: int| 0 <= p < (s.len() as int) / k ==> (#[trigger] page_of(s, p, k)).len() == k,
        page_of(s, (s.len() as int) / k, k).len() < k,
        pages_upto(s, k, ((s.len() as int) / k + 1) as nat) == s,
{
    let n = s.len() as int;
    let q = n / k;
    assert(q * k <= n && n < q * k + k) by (nonlinear_arith)
        requires
            k > 0,
            n >= 0,
            q == n / k,
    ;
    assert forall|p: int| 0 <= p < q implies (#[trigger] page_of(s, p, k)).len() == k by {
        assert(p * k + k <= q * k && p * k >= 0) by (nonlinear_arith)
            requires
                0 <= p < q,
                k > 0,
        ;
    }
    assert(q >= 0) by (nonlinear_arith)
        requires
            k > 0,
            n >= 0,
            q == n / k,
    ;
    lemma_pages_prefix(s, k, (q + 1) as nat);
    assert((q + 1) * k == q * k + k) by (nonlinear_arith);
    assert(s.subrange(0, n) == s);
}

/// With no sprints, no item has accumulated any divergence, and no item
/// is recorded at all.
pub proof fn lemma_no_sprints_no_divergence(p: Processo, id: Seq<char>)
    requires
        p.sprints@.len() == 0,
    ensures
        fold_sprints(p.sprints@, Some(id), Measure::Divergence) == Some(0int),
        !appears(p.sprints@, id),
{
}

/// Entries whose actual equals their target add nothing to a divergence
/// total.
proof fn lemma_matched_items(items: Seq<SprintItem>)
    requires
        forall|k: int| 0 <= k < items.len() ==> #[trigger] items[k].actual == Some(items[k].target),
    ensures
        fold_items(Some(0int), items, None, Measure::Divergence) == Some(0int),
    decreases items.len(),
{
    if items.len() > 0 {
        let prefix = items.drop_last();
        assert forall|k: int| 0 <= k < prefix.len() implies #[trigger] prefix[k].actual == Some(
            prefix[k].target,
        ) by {
            assert(prefix[k] == items[k]);
        }
        lemma_matched_items(prefix);
        assert(items.last() == items[items.len() - 1]);
    }
}

/// A sprint in which every entry's actual equals its target has a total
/// divergence of exactly zero.
pub proof fn lemma_matched_sprint_zero_divergence(s: Sprint)
    requires
        forall|k: int|
            0 <= k < s.itens@.len() ==> #[trigger] s.itens@[k].actual == Some(s.itens@[k].target),
    ensures
        fold_items(Some(0int), s.itens@, None, Measure::Divergence) == Some(0int),
{
    lemma_matched_items(s.itens@);
}

/// A suggestion is clamped exactly at the bounds: when the weight plus the
/// correction lies above `TARGET_BOUND` the suggestion is `TARGET_BOUND`,
/// below `-TARGET_BOUND` it is `-TARGET_BOUND`, in between it is that sum.
/// Only a running total of recorded actuals outside the finite range gives
/// zero.
pub proof fn lemma_clamp_boundary(w: int, executed: int, remaining: int, recorded: Option<int>)
    requires
        remaining > 0,
    ensures
        ({
            let r = suggested_target(w, executed, remaining, recorded);
            match recorded {
                Some(a) => {
                    let raw = w + div_round(w * (executed + remaining) - a, remaining);
                    &&& raw > TARGET_BOUND ==> r == TARGET_BOUND
                    &&& raw < -TARGET_BOUND ==> r == -TARGET_BOUND
                    &&& -TARGET_BOUND <= raw <= TARGET_BOUND ==> r == raw
                },
                None => r == 0,
            }
        }),
{
}

} // verus!
