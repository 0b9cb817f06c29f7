//! Sprints: one execution increment of a process, recording planned and
//! actual consumption per item.

use vstd::prelude::*;
use crate::audit::Auditable;
use crate::item::Item;
use crate::quantity::{add_finite, finite_add, is_finite, or_zero, widen};
use crate::runtime::{fresh_id, now_millis};
use crate::store::{keep_flagged, select};
use crate::user::User;

verus! {

/// One item of a sprint: its planned quantity and, once recorded, the
/// quantity actually consumed, both in thousandths of a unit.
#[derive(Debug)]
pub struct SprintItem {
    pub item: Item,
    pub target: i64,
    pub actual: Option<i64>,
}

impl Clone for SprintItem {
    fn clone(&self) -> (r: Self)
        ensures
            r == *self,
    {
        SprintItem { item: self.item.clone(), target: self.target, actual: self.actual }
    }
}

/// What a running total over sprint items adds up.
#[derive(Clone, Copy, Debug, PartialEq, Eq, Structural)]
pub enum Measure {
    /// `actual - target` where the actual was recorded, else zero.
    Divergence,
    /// The recorded actual, else zero.
    Recorded,
}

impl Measure {
    /// What `si` adds to a running total of this measure.
    pub open spec fn of(self, si: SprintItem) -> int {
        match si.actual {
            Some(a) => match self {
                Measure::Divergence => a - si.target,
                Measure::Recorded => a as int,
            },
            None => 0,
        }
    }

    fn value(self, si: &SprintItem) -> (r: i128)
        ensures
            r == self.of(*si),
            is_finite(r as int),
    {
        match si.actual {
            Some(a) => match self {
                Measure::Divergence => a as i128 - si.target as i128,
                Measure::Recorded => a as i128,
            },
            None => 0,
        }
    }
}

/// Whether a running total restricted to `sel` (one item identifier, or
/// every item when `None`) counts `si`.
pub open spec fn selects(sel: Option<Seq<char>>, si: SprintItem) -> bool {
    match sel {
        Some(id) => si.item.id@ == id,
        None => true,
    }
}

/// The identifier a selection names, as characters.
pub open spec fn selection(sel: Option<&String>) -> Option<Seq<char>> {
    match sel {
        Some(id) => Some(id@),
        None => None,
    }
}

/// The exact sum of `m` over the entries of `items` that `sel` selects.
pub open spec fn sum_items(items: Seq<SprintItem>, sel: Option<Seq<char>>, m: Measure) -> int
    decreases items.len(),
{
    if items.len() == 0 {
        0
    } else {
        sum_items(items.drop_last(), sel, m) + if selects(sel, items.last()) {
            m.of(items.last())
        } else {
            0
        }
    }
}

/// The running total, from `acc`, of `m` over the entries of `items` that
/// `sel` selects, taken in order; `None` once it leaves the finite range.
pub open spec fn fold_items(
    acc: Option<int>,
    items: Seq<SprintItem>,
    sel: Option<Seq<char>>,
    m: Measure,
) -> Option<int>
    decreases items.len(),
{
    if items.len() == 0 {
        acc
    } else {
        let prev = fold_items(acc, items.drop_last(), sel, m);
        if selects(sel, items.last()) {
            finite_add(prev, m.of(items.last()))
        } else {
            prev
        }
    }
}

/// A running total that stays finite is the exact sum.
pub proof fn lemma_fold_items_exact(
    a: int,
    items: Seq<SprintItem>,
    sel: Option<Seq<char>>,
    m: Measure,
)
    ensures
        fold_items(Some(a), items, sel, m) matches Some(v) ==> v == a + sum_items(items, sel, m),
    decreases items.len(),
{
    if items.len() > 0 {
        lemma_fold_items_exact(a, items.drop_last(), sel, m);
    }
}

/// Once a running total is an anomaly it stays one.
pub proof fn lemma_fold_items_none(items: Seq<SprintItem>, sel: Option<Seq<char>>, m: Measure)
    ensures
        fold_items(None, items, sel, m) is None,
    decreases items.len(),
{
    if items.len() > 0 {
        lemma_fold_items_none(items.drop_last(), sel, m);
    }
}

/// Continues the running total `acc` over `items`.
pub fn fold_sprint_items(
    acc: Option<i128>,
    items: &Vec<SprintItem>,
    sel: Option<&String>,
    m: Measure,
) -> (r: Option<i128>)
    requires
        acc matches Some(v) ==> is_finite(v as int),
    ensures
        widen(r) == fold_items(widen(acc), items@, selection(sel), m),
        r matches Some(v) ==> is_finite(v as int),
{
    let mut total = acc;
    let mut j: usize = 0;
    while j < items.len()
        invariant
            j <= items@.len(),
            widen(total) == fold_items(widen(acc), items@.subrange(0, j as int), selection(sel), m),
            total matches Some(v) ==> is_finite(v as int),
        decreases items@.len() - j,
    {
        let si = &items[j];
        let counted = match sel {
            Some(id) => si.item.id == *id,
            None => true,
        };
        proof {
            assert(items@.subrange(0, j + 1).drop_last() == items@.subrange(0, j as int));
        }
        if counted {
            let x = m.value(si);
            total = add_finite(total, x);
        }
        j = j + 1;
    }
    proof {
        assert(items@.subrange(0, items@.len() as int) == items@);
    }
    total
}

impl SprintItem {
    /// A planned entry with no actual recorded yet.
    pub fn new(item: Item, target: i64) -> (r: SprintItem)
        ensures
            r == (SprintItem { item, target, actual: None }),
    {
        SprintItem { item, target, actual: None }
    }

    /// Records the quantity actually consumed.
    pub fn set_actual(&mut self, actual: i64)
        ensures
            *final(self) == (SprintItem { actual: Some(actual), ..*old(self) }),
    {
        self.actual = Some(actual);
    }

    /// `actual - target` once the actual is recorded; zero before.
    pub fn divergence(&self) -> (r: i128)
        ensures
            r == Measure::Divergence.of(*self),
    {
        Measure::Divergence.value(self)
    }
}

/// A sprint of a process: numbered by the caller, with one entry per item
/// and a copy of the user who operated it.
#[derive(Clone, Debug)]
pub struct Sprint {
    pub id: String,
    pub processo_id: String,
    pub numero: usize,
    pub itens: Vec<SprintItem>,
    pub operador_id: User,
    pub comentario: Option<String>,
    pub created_at: i64,
    pub updated_at: i64,
}

/// A quantity keyed by item identifier.
#[derive(Clone, Debug)]
pub struct ItemAmount<N> {
    pub item_id: String,
    pub amount: N,
}

/// The value for `id` in a list read as a map in which later entries
/// replace earlier ones with the same identifier.
pub open spec fn amount_for<N>(entries: Seq<ItemAmount<N>>, id: Seq<char>) -> Option<N>
    decreases entries.len(),
{
    if entries.len() == 0 {
        None
    } else if entries.last().item_id@ == id {
        Some(entries.last().amount)
    } else {
        amount_for(entries.drop_last(), id)
    }
}

impl Sprint {
    /// A new sprint with a fresh identifier and no comment.
    pub fn new(processo_id: String, numero: usize, itens: Vec<SprintItem>, operador_id: User) -> (r:
        Sprint)
        ensures
            r.processo_id == processo_id,
            r.numero == numero,
            r.itens == itens,
            r.operador_id == operador_id,
            r.comentario is None,
            r.id@.len() == 36,
            r.created_at == r.updated_at,
            r.created_at >= 0,
    {
        let id = fresh_id();
        let now = now_millis();
        Sprint {
            id,
            processo_id,
            numero,
            itens,
            operador_id,
            comentario: None,
            created_at: now,
            updated_at: now,
        }
    }

    /// This sprint with its entries replaced by `itens`.
    pub open spec fn with_items(&self, itens: Vec<SprintItem>) -> Sprint {
        Sprint { itens, ..*self }
    }

    /// Appends an entry and touches the sprint.
    pub fn add_item(&mut self, item: SprintItem)
        ensures
            final(self).itens@ == old(self).itens@.push(item),
            final(self).updated_at >= 0,
            *final(self) == old(self).with_items(final(self).itens).with_stamp(
                final(self).updated_at,
            ),
    {
        self.itens.push(item);
        self.touch();
    }

    /// Records `actual` on the first entry for item `item_id` and touches
    /// the sprint; returns false, changing nothing, when no entry is for it.
    pub fn set_actual_for_item(&mut self, item_id: &str, actual: i64) -> (found: bool)
        ensures
            found == exists|k: int|
                0 <= k < old(self).itens@.len() && #[trigger] old(self).itens@[k].item.id@
                    == item_id@,
            !found ==> *final(self) == *old(self),
            found ==> exists|k: int|
                0 <= k < old(self).itens@.len() && old(self).itens@[k].item.id@ == item_id@
                    && (forall|j: int|
                    0 <= j < k ==> #[trigger] old(self).itens@[j].item.id@ != item_id@)
                    && final(self).itens@ == old(self).itens@.update(
                    k,
                    SprintItem { actual: Some(actual), ..old(self).itens@[k] },
                ),
            found ==> final(self).updated_at >= 0 && *final(self) == old(self).with_items(
                final(self).itens,
            ).with_stamp(final(self).updated_at),
    {
        let key = item_id.to_owned();
        let mut k: usize = 0;
        while k < self.itens.len()
            invariant
                k <= self.itens@.len(),
                key@ == item_id@,
                *self == *old(self),
                forall|j: int| 0 <= j < k ==> #[trigger] self.itens@[j].item.id@ != item_id@,
            decreases self.itens@.len() - k,
        {
            if self.itens[k].item.id == key {
                let mut entry = self.itens[k].clone();
                entry.set_actual(actual);
                self.itens.set(k, entry);
                self.touch();
                return true;
            }
            k = k + 1;
        }
        false
    }

    /// The sum over every entry of its divergence, zero when that total
    /// leaves the finite range.
    pub fn total_divergence(&self) -> (r: i128)
        ensures
            r == or_zero(fold_items(Some(0), self.itens@, None, Measure::Divergence)),
    {
        match fold_sprint_items(Some(0), &self.itens, None, Measure::Divergence) {
            Some(v) => v,
            None => 0,
        }
    }

    /// Sets the target of every entry for which `suggestions` has a value,
    /// read as a map with later entries winning, and touches the sprint.
    pub fn apply_suggestions(&mut self, suggestions: &Vec<ItemAmount<i64>>)
        ensures
            final(self).itens@.len() == old(self).itens@.len(),
            forall|k: int|
                0 <= k < old(self).itens@.len() ==> #[trigger] final(self).itens@[k] == (match amount_for(
                    suggestions@,
                    old(self).itens@[k].item.id@,
                ) {
                    Some(t) => SprintItem { target: t, ..old(self).itens@[k] },
                    None => old(self).itens@[k],
                }),
            final(self).updated_at >= 0,
            *final(self) == old(self).with_items(final(self).itens).with_stamp(
                final(self).updated_at,
            ),
    {
        let mut k: usize = 0;
        while k < self.itens.len()
            invariant
                k <= self.itens@.len(),
                self.itens@.len() == old(self).itens@.len(),
                *self == old(self).with_items(self.itens),
                forall|j: int|
                    0 <= j < k ==> #[trigger] self.itens@[j] == (match amount_for(
                        suggestions@,
                        old(self).itens@[j].item.id@,
                    ) {
                        Some(t) => SprintItem { target: t, ..old(self).itens@[j] },
                        None => old(self).itens@[j],
                    }),
                forall|j: int| k <= j < self.itens@.len() ==> #[trigger] self.itens@[j] == old(self).itens@[j],
            decreases self.itens@.len() - k,
        {
            match lookup_amount(suggestions, &self.itens[k].item.id) {
                Some(t) => {
                    let mut entry = self.itens[k].clone();
                    entry.target = t;
                    self.itens.set(k, entry);
                },
                None => {},
            }
            k = k + 1;
        }
        self.touch();
    }

    /// The divergence of each entry, keyed by its item identifier; read as a
    /// map, a later entry for the same item replaces an earlier one.
    pub fn divergence_per_item(&self) -> (r: Vec<ItemAmount<i128>>)
        ensures
            r@.len() == self.itens@.len(),
            forall|k: int|
                0 <= k < r@.len() ==> #[trigger] r@[k].item_id@ == self.itens@[k].item.id@
                    && r@[k].amount == Measure::Divergence.of(self.itens@[k]),
    {
        let mut r: Vec<ItemAmount<i128>> = Vec::new();
        let mut k: usize = 0;
        while k < self.itens.len()
            invariant
                k <= self.itens@.len(),
                r@.len() == k,
                forall|j: int|
                    0 <= j < k ==> #[trigger] r@[j].item_id@ == self.itens@[j].item.id@
                        && r@[j].amount == Measure::Divergence.of(self.itens@[j]),
            decreases self.itens@.len() - k,
        {
            let si = &self.itens[k];
            r.push(ItemAmount { item_id: si.item.id.clone(), amount: si.divergence() });
            k = k + 1;
        }
        r
    }

    /// Whether the embedded operator is a copy of `u`.
    pub open spec fn operated_by(&self, u: &User) -> bool {
        self.operador_id.id@ == u.id@
    }

    /// Brings the embedded operator copy up to date with `u`: when the
    /// operator's identifier is `u`'s, the copy becomes `u` and the sprint
    /// is touched; otherwise nothing changes. Returns whether it changed.
    pub fn refresh_operator(&mut self, u: &User) -> (changed: bool)
        ensures
            changed == old(self).operated_by(u),
            changed ==> final(self).updated_at >= 0 && *final(self) == (Sprint {
                operador_id: *u,
                ..*old(self)
            }).with_stamp(final(self).updated_at),
            !changed ==> *final(self) == *old(self),
    {
        if self.operador_id.id == u.id {
            self.operador_id = u.clone();
            self.touch();
            true
        } else {
            false
        }
    }
}

/// The value for `id` in `entries`, read as a map in which later entries
/// replace earlier ones.
pub fn lookup_amount<N: Copy>(entries: &Vec<ItemAmount<N>>, id: &String) -> (r: Option<N>)
    ensures
        r == amount_for(entries@, id@),
{
    let mut k: usize = entries.len();
    proof {
        assert(entries@.subrange(0, entries@.len() as int) == entries@);
    }
    while k > 0
        invariant
            k <= entries@.len(),
            amount_for(entries@, id@) == amount_for(entries@.subrange(0, k as int), id@),
        decreases k,
    {
        proof {
            assert(entries@.subrange(0, k as int).drop_last() == entries@.subrange(0, k - 1));
        }
        if entries[k - 1].item_id == *id {
            return Some(entries[k - 1].amount);
        }
        k = k - 1;
    }
    None
}

/// The sprints of `s` that belong to process `id`, in order.
pub open spec fn process_sprints(s: Seq<Sprint>, id: Seq<char>) -> Seq<Sprint> {
    select(s, Seq::new(s.len(), |i: int| s[i].processo_id@ == id))
}

impl Sprint {
    /// The sprints of `sprints` that belong to process `processo_id`, in order.
    pub fn list_by_processo(sprints: Vec<Sprint>, processo_id: &str) -> (r: Vec<Sprint>)
        ensures
            r@ == process_sprints(sprints@, processo_id@),
    {
        let key = processo_id.to_owned();
        let mut keep: Vec<bool> = Vec::new();
        let mut k: usize = 0;
        while k < sprints.len()
            invariant
                k <= sprints@.len(),
                keep@.len() == k,
                key@ == processo_id@,
                forall|j: int| 0 <= j < k ==> #[trigger] keep@[j] == (sprints@[j].processo_id@ == processo_id@),
            decreases sprints@.len() - k,
        {
            keep.push(sprints[k].processo_id == key);
            k = k + 1;
        }
        proof {
            assert(keep@ == Seq::new(sprints@.len(), |i: int| sprints@[i].processo_id@ == processo_id@));
        }
        keep_flagged(sprints, &keep)
    }
}

impl Auditable for Sprint {
    open spec fn stamp(&self) -> i64 {
        self.updated_at
    }

    open spec fn with_stamp(&self, t: i64) -> Self {
        Sprint { updated_at: t, ..*self }
    }

    fn touch(&mut self) {
        self.updated_at = now_millis();
    }

    fn updated_at(&self) -> (r: i64) {
        self.updated_at
    }
}

} // verus!
