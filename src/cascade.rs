//! Keeping embedded copies in step with their canonical entity.
//!
//! Each function takes a whole dependent collection, as a full scan reads
//! it, brings every copy of the updated entity up to date, and returns the
//! positions it rewrote, in increasing order: exactly the documents the
//! caller must write back. Documents that hold no copy are left as they
//! were.

use vstd::prelude::*;
use crate::audit::Auditable;
use crate::fornecedor::Fornecedor;
use crate::formula::Formula;
use crate::item::Item;
use crate::sprint::Sprint;
use crate::user::User;

verus! {

/// Whether `pos` lists, in increasing order, exactly the positions below
/// `n` at which `hit` holds.
pub open spec fn lists_hits(pos: Seq<usize>, n: int, hit: spec_fn(int) -> bool) -> bool {
    &&& forall|i: int, j: int| 0 <= i < j < pos.len() ==> pos[i] < pos[j]
    &&& forall|i: int| 0 <= i < pos.len() ==> #[trigger] pos[i] < n && hit(pos[i] as int)
    &&& forall|k: int| 0 <= k < n && #[trigger] hit(k) ==> exists|i: int| 0 <= i < pos.len() && pos[i] == k
}

proof fn lemma_lists_hits_step(pos: Seq<usize>, k: int, hit: spec_fn(int) -> bool)
    requires
        0 <= k <= usize::MAX,
        lists_hits(pos, k, hit),
    ensures
        hit(k) ==> lists_hits(pos.push(k as usize), k + 1, hit),
        !hit(k) ==> lists_hits(pos, k + 1, hit),
{
    if hit(k) {
        let extended = pos.push(k as usize);
        assert(extended[pos.len() as int] == k);
        assert forall|j: int| 0 <= j < k + 1 && #[trigger] hit(j) implies exists|i: int|
            0 <= i < extended.len() && extended[i] == j by {
            if j < k {
                let i = choose|i: int| 0 <= i < pos.len() && pos[i] == j;
                assert(extended[i] == j);
            } else {
                assert(extended[pos.len() as int] == j);
            }
        }
    }
}

/// Rewrites every item's copy of supplier `s` after `s` was updated.
pub fn cascade_supplier(items: &mut Vec<Item>, s: &Fornecedor) -> (rewritten: Vec<usize>)
    ensures
        final(items)@.len() == old(items)@.len(),
        forall|k: int|
            0 <= k < old(items)@.len() && old(items)@[k].supplied_by(s) ==> #[trigger] final(items)@[k] == old(items)@[k].with_supplier(*s).with_stamp(final(items)@[k].updated_at)
                && final(items)@[k].updated_at >= 0,
        forall|k: int|
            0 <= k < old(items)@.len() && !old(items)@[k].supplied_by(s) ==> #[trigger] final(items)@[k] == old(items)@[k],
        forall|k: int|
            0 <= k < final(items)@.len() && #[trigger] final(items)@[k].fornecedor_id@ == s.id@
                ==> final(items)@[k].fornecedor == *s,
        lists_hits(rewritten@, old(items)@.len() as int, |k: int| old(items)@[k].supplied_by(s)),
{
    let ghost before = items@;
    let ghost hit = |j: int| before[j].supplied_by(s);
    let mut rewritten: Vec<usize> = Vec::new();
    let mut k: usize = 0;
    while k < items.len()
        invariant
            k <= items@.len(),
            items@.len() == before.len(),
            forall|j: int|
                0 <= j < k && before[j].supplied_by(s) ==> #[trigger] items@[j]
                    == before[j].with_supplier(*s).with_stamp(items@[j].updated_at)
                    && items@[j].updated_at >= 0,
            forall|j: int|
                0 <= j < k && !before[j].supplied_by(s) ==> #[trigger] items@[j] == before[j],
            forall|j: int| k <= j < items@.len() ==> #[trigger] items@[j] == before[j],
            hit == (|j: int| before[j].supplied_by(s)),
            lists_hits(rewritten@, k as int, hit),
        decreases items@.len() - k,
    {
        proof {
            lemma_lists_hits_step(rewritten@, k as int, hit);
        }
        let mut it = items[k].clone();
        if it.refresh_supplier(s) {
            items.set(k, it);
            rewritten.push(k);
        }
        k = k + 1;
    }
    proof {
        assert(hit == (|j: int| old(items)@[j].supplied_by(s)));
    }
    rewritten
}

/// Rewrites every formula entry's copy of `item` after `item` was updated,
/// keeping each entry's weight.
pub fn cascade_item(formulas: &mut Vec<Formula>, item: &Item) -> (rewritten: Vec<usize>)
    ensures
        final(formulas)@.len() == old(formulas)@.len(),
        forall|k: int|
            0 <= k < old(formulas)@.len() ==> #[trigger] final(formulas)@[k].refreshed_from(
                old(formulas)@[k],
                *item,
            ),
        forall|k: int|
            0 <= k < old(formulas)@.len() && old(formulas)@[k].uses_item(item) ==> #[trigger] final(formulas)@[k] == old(formulas)@[k].with_items(final(formulas)@[k].itens).with_stamp(
                final(formulas)@[k].updated_at,
            ) && final(formulas)@[k].updated_at >= 0,
        forall|k: int|
            0 <= k < old(formulas)@.len() && !old(formulas)@[k].uses_item(item) ==> #[trigger] final(formulas)@[k] == old(formulas)@[k],
        lists_hits(
            rewritten@,
            old(formulas)@.len() as int,
            |k: int| old(formulas)@[k].uses_item(item),
        ),
{
    let ghost before = formulas@;
    let ghost hit = |j: int| before[j].uses_item(item);
    let mut rewritten: Vec<usize> = Vec::new();
    let mut k: usize = 0;
    while k < formulas.len()
        invariant
            k <= formulas@.len(),
            formulas@.len() == before.len(),
            forall|j: int| 0 <= j < k ==> #[trigger] formulas@[j].refreshed_from(before[j], *item),
            forall|j: int|
                0 <= j < k && before[j].uses_item(item) ==> #[trigger] formulas@[j]
                    == before[j].with_items(formulas@[j].itens).with_stamp(
                    formulas@[j].updated_at,
                ) && formulas@[j].updated_at >= 0,
            forall|j: int|
                0 <= j < k && !before[j].uses_item(item) ==> #[trigger] formulas@[j] == before[j],
            forall|j: int| k <= j < formulas@.len() ==> #[trigger] formulas@[j] == before[j],
            hit == (|j: int| before[j].uses_item(item)),
            lists_hits(rewritten@, k as int, hit),
        decreases formulas@.len() - k,
    {
        proof {
            lemma_lists_hits_step(rewritten@, k as int, hit);
        }
        let changed = formulas[k].refresh_item(item);
        if changed {
            rewritten.push(k);
        }
        k = k + 1;
    }
    proof {
        assert(hit == (|j: int| old(formulas)@[j].uses_item(item)));
    }
    rewritten
}

/// Rewrites every sprint's copy of user `u` after `u` was updated.
pub fn cascade_user(sprints: &mut Vec<Sprint>, u: &User) -> (rewritten: Vec<usize>)
    ensures
        final(sprints)@.len() == old(sprints)@.len(),
        forall|k: int|
            0 <= k < old(sprints)@.len() && old(sprints)@[k].operated_by(u) ==> #[trigger] final(sprints)@[k] == (Sprint { operador_id: *u, ..old(sprints)@[k] }).with_stamp(
                final(sprints)@[k].updated_at,
            ) && final(sprints)@[k].updated_at >= 0,
        forall|k: int|
            0 <= k < old(sprints)@.len() && !old(sprints)@[k].operated_by(u) ==> #[trigger] final(sprints)@[k] == old(sprints)@[k],
        forall|k: int|
            0 <= k < final(sprints)@.len() && #[trigger] final(sprints)@[k].operador_id.id@ == u.id@
                ==> final(sprints)@[k].operador_id == *u,
        lists_hits(rewritten@, old(sprints)@.len() as int, |k: int| old(sprints)@[k].operated_by(u)),
{
    let ghost before = sprints@;
    let ghost hit = |j: int| before[j].operated_by(u);
    let mut rewritten: Vec<usize> = Vec::new();
    let mut k: usize = 0;
    while k < sprints.len()
        invariant
            k <= sprints@.len(),
            sprints@.len() == before.len(),
            forall|j: int|
                0 <= j < k && before[j].operated_by(u) ==> #[trigger] sprints@[j] == (Sprint {
                    operador_id: *u,
                    ..before[j]
                }).with_stamp(sprints@[j].updated_at) && sprints@[j].updated_at >= 0,
            forall|j: int|
                0 <= j < k && !before[j].operated_by(u) ==> #[trigger] sprints@[j] == before[j],
            forall|j: int| k <= j < sprints@.len() ==> #[trigger] sprints@[j] == before[j],
            hit == (|j: int| before[j].operated_by(u)),
            lists_hits(rewritten@, k as int, hit),
        decreases sprints@.len() - k,
    {
        proof {
            lemma_lists_hits_step(rewritten@, k as int, hit);
        }
        if sprints[k].refresh_operator(u) {
            rewritten.push(k);
        }
        k = k + 1;
    }
    proof {
        assert(hit == (|j: int| old(sprints)@[j].operated_by(u)));
    }
    rewritten
}

} // verus!
