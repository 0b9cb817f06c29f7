//! Processes: production runs against a formula snapshot, the divergence
//! of their sprint history, and the targets suggested for the next sprint.

use vstd::prelude::*;
use crate::audit::Auditable;
use crate::formula::{Formula, ItemFormula};
use crate::quantity::{
    clamp_target, clamp_to_target, div_round, is_finite, or_zero, round_div, widen,
    TARGET_BOUND,
};
use crate::runtime::{fresh_id, now_millis};
use crate::sprint::{
    amount_for, fold_items, fold_sprint_items, lemma_fold_items_exact, lemma_fold_items_none,
    lookup_amount, sum_items, ItemAmount, Measure, Sprint, SprintItem,
};
use crate::user::User;

verus! {

/// The status of a process that is still running.
pub open spec fn status_running() -> Seq<char> {
    "Em Andamento"@
}

/// The status of a finished process.
pub open spec fn status_finished() -> Seq<char> {
    "Terminado"@
}

/// A production run. `formula` is a copy taken when the process was
/// created; later edits of the formula do not reach it. `weight` is the sum
/// of the formula's weights, in thousandths of a unit.
#[derive(Clone, Debug)]
pub struct Processo {
    pub id: String,
    pub nome: String,
    pub formula: Formula,
    pub status: String,
    pub weight: i128,
    pub sprints: Vec<Sprint>,
    pub created_at: i64,
    pub updated_at: i64,
}

/// The running total, over all of `sprints` in order, of `m` for the
/// entries that `sel` selects; `None` once it leaves the finite range.
pub open spec fn fold_sprints(sprints: Seq<Sprint>, sel: Option<Seq<char>>, m: Measure) -> Option<
    int,
>
    decreases sprints.len(),
{
    if sprints.len() == 0 {
        Some(0)
    } else {
        fold_items(fold_sprints(sprints.drop_last(), sel, m), sprints.last().itens@, sel, m)
    }
}

/// The exact sum, over all of `sprints`, of `m` for the entries that `sel`
/// selects.
pub open spec fn sum_sprints(sprints: Seq<Sprint>, sel: Option<Seq<char>>, m: Measure) -> int
    decreases sprints.len(),
{
    if sprints.len() == 0 {
        0
    } else {
        sum_sprints(sprints.drop_last(), sel, m) + sum_items(sprints.last().itens@, sel, m)
    }
}

/// A running total over sprints that stays finite is the exact sum.
pub proof fn lemma_fold_sprints_exact(sprints: Seq<Sprint>, sel: Option<Seq<char>>, m: Measure)
    ensures
        fold_sprints(sprints, sel, m) matches Some(v) ==> v == sum_sprints(sprints, sel, m),
    decreases sprints.len(),
{
    if sprints.len() > 0 {
        let prev = fold_sprints(sprints.drop_last(), sel, m);
        lemma_fold_sprints_exact(sprints.drop_last(), sel, m);
        match prev {
            Some(a) => lemma_fold_items_exact(a, sprints.last().itens@, sel, m),
            None => lemma_fold_items_none(sprints.last().itens@, sel, m),
        }
    }
}

/// Whether some entry of some sprint is for item `id`.
pub open spec fn appears(sprints: Seq<Sprint>, id: Seq<char>) -> bool {
    exists|s: int, k: int|
        0 <= s < sprints.len() && 0 <= k < sprints[s].itens@.len()
            && #[trigger] sprints[s].itens@[k].item.id@ == id
}

/// The target suggested for an item of per-sprint weight `w`, after
/// `executed` sprints and with `remaining > 0` still to run, when `recorded`
/// is the total of its recorded actuals: the gap between what the weight
/// plans over all sprints and what was consumed is spread evenly over the
/// remaining sprints (rounded to the nearest thousandth, halves away from
/// zero) and added to the weight, then held to
/// `[-TARGET_BOUND, TARGET_BOUND]`. A running total of recorded actuals
/// that has left the finite range, which no history held in memory can
/// reach, gives zero.
pub open spec fn suggested_target(w: int, executed: int, remaining: int, recorded: Option<int>) -> int {
    match recorded {
        Some(a) => clamp_target(w + div_round(w * (executed + remaining) - a, remaining)),
        None => 0,
    }
}

/// Above this magnitude the planned total decides the suggestion's bound
/// by its sign alone.
pub const PLANNED_CUTOFF: i128 = 0x4000_0000_0000_0000_0000_0000_0000_0000;

/// When the planned total `w * planned` is at least `PLANNED_CUTOFF` in
/// magnitude, the suggestion lies beyond the bounds on the side of `w`.
proof fn lemma_planned_beyond_bounds(w: int, planned: int, remaining: int, a: int)
    requires
        i64::MIN <= w <= i64::MAX,
        0 < remaining <= planned,
        remaining <= 0x1_0000_0000_0000_0000,
        is_finite(a),
        w * planned >= PLANNED_CUTOFF || w * planned <= -PLANNED_CUTOFF,
    ensures
        w > 0 ==> w + div_round(w * planned - a, remaining) > TARGET_BOUND,
        w < 0 ==> w + div_round(w * planned - a, remaining) < -TARGET_BOUND,
        w != 0,
{
    let x = w * planned - a;
    let h = remaining / 2;
    let big: int = 0x2000_0000_0000_0000;
    assert(big * remaining <= 0x2000_0000_0000_0000_0000_0000_0000_0000) by (nonlinear_arith)
        requires
            0 < remaining <= 0x1_0000_0000_0000_0000,
            big == 0x2000_0000_0000_0000,
    ;
    if w == 0 {
        assert(w * planned == 0);
    }
    if w > 0 {
        assert(w * planned > 0) by (nonlinear_arith)
            requires
                w > 0,
                planned > 0,
        ;
        assert(x + h >= big * remaining);
        vstd::arithmetic::div_mod::lemma_div_is_ordered(big * remaining, x + h, remaining);
        vstd::arithmetic::div_mod::lemma_div_by_multiple(big, remaining);
    } else if w < 0 {
        assert(w * planned < 0) by (nonlinear_arith)
            requires
                w < 0,
                planned > 0,
        ;
        assert(-x + h >= big * remaining);
        vstd::arithmetic::div_mod::lemma_div_is_ordered(big * remaining, -x + h, remaining);
        vstd::arithmetic::div_mod::lemma_div_by_multiple(big, remaining);
    }
}

/// The suggestion for item `id` that a process with entries `itens` and
/// history `sprints` makes, read as a map: the one of the last entry for
/// `id`.
pub open spec fn formula_suggestion(
    itens: Seq<ItemFormula>,
    sprints: Seq<Sprint>,
    remaining: int,
    id: Seq<char>,
) -> Option<int>
    decreases itens.len(),
{
    if itens.len() == 0 {
        None
    } else if itens.last().item.id@ == id {
        Some(
            suggested_target(
                itens.last().peso as int,
                sprints.len() as int,
                remaining,
                fold_sprints(sprints, Some(id), Measure::Recorded),
            ),
        )
    } else {
        formula_suggestion(itens.drop_last(), sprints, remaining, id)
    }
}

/// The suggestion that a process makes for the item of its formula entry
/// `e`, with `remaining` sprints still to run.
pub open spec fn entry_suggestion(e: ItemFormula, sprints: Seq<Sprint>, remaining: int) -> int {
    suggested_target(
        e.peso as int,
        sprints.len() as int,
        remaining,
        fold_sprints(sprints, Some(e.item.id@), Measure::Recorded),
    )
}

/// The target that a new sprint plans for formula entry `k`: the suggestion
/// for its item, or its weight when no sprint remains.
pub open spec fn planned_target(p: Processo, remaining: int, k: int) -> int {
    if remaining == 0 {
        p.formula.itens@[k].peso as int
    } else {
        match formula_suggestion(p.formula.itens@, p.sprints@, remaining, p.formula.itens@[k].item.id@) {
            Some(t) => t,
            None => p.formula.itens@[k].peso as int,
        }
    }
}

/// Whether `id` is one of `ids`.
pub open spec fn id_listed(ids: Seq<String>, id: Seq<char>) -> bool {
    exists|i: int| 0 <= i < ids.len() && #[trigger] ids[i]@ == id
}

/// Whether `entries` has an entry for `id`.
pub open spec fn amount_listed(entries: Seq<ItemAmount<i128>>, id: Seq<char>) -> bool {
    exists|i: int| 0 <= i < entries.len() && #[trigger] entries[i].item_id@ == id
}

/// The running total, over all of `sprints`, of `m` for the entries for
/// item `id`.
fn running_total(sprints: &Vec<Sprint>, id: &String, m: Measure) -> (r: Option<i128>)
    ensures
        widen(r) == fold_sprints(sprints@, Some(id@), m),
        r matches Some(v) ==> is_finite(v as int),
{
    let mut total: Option<i128> = Some(0);
    let mut s: usize = 0;
    while s < sprints.len()
        invariant
            s <= sprints@.len(),
            widen(total) == fold_sprints(sprints@.subrange(0, s as int), Some(id@), m),
            total matches Some(v) ==> is_finite(v as int),
        decreases sprints@.len() - s,
    {
        proof {
            assert(sprints@.subrange(0, s + 1).drop_last() == sprints@.subrange(0, s as int));
        }
        total = fold_sprint_items(total, &sprints[s].itens, Some(id), m);
        s = s + 1;
    }
    proof {
        assert(sprints@.subrange(0, sprints@.len() as int) == sprints@);
    }
    total
}

/// The target suggested for one item: `suggested_target` computed on the
/// item's weight `w`, the `executed` and `remaining` sprint counts and the
/// total `recorded` of its actuals (`None`: outside the finite range).
pub fn next_target(w: i64, executed: usize, remaining: usize, recorded: Option<i128>) -> (r: i64)
    requires
        remaining > 0,
        recorded matches Some(a) ==> is_finite(a as int),
    ensures
        r == suggested_target(w as int, executed as int, remaining as int, widen(recorded)),
{
    match recorded {
        Some(a) => {
            let planned: i128 = executed as i128 + remaining as i128;
            let beyond = match (w as i128).checked_mul(planned) {
                Some(expected) => expected <= -PLANNED_CUTOFF || expected >= PLANNED_CUTOFF,
                None => true,
            };
            if beyond {
                proof {
                    lemma_planned_beyond_bounds(w as int, planned as int, remaining as int, a as int);
                }
                if w > 0 {
                    TARGET_BOUND
                } else {
                    -TARGET_BOUND
                }
            } else {
                let expected = w as i128 * planned;
                let error = expected - a;
                let correction = round_div(error, remaining as i128);
                clamp_to_target(w as i128 + correction)
            }
        },
        None => 0,
    }
}

/// Whether `id` is one of `ids`.
fn holds_id(ids: &Vec<String>, id: &String) -> (r: bool)
    ensures
        r == exists|i: int| 0 <= i < ids@.len() && #[trigger] ids@[i]@ == id@,
{
    let mut i: usize = 0;
    while i < ids.len()
        invariant
            i <= ids@.len(),
            forall|j: int| 0 <= j < i ==> #[trigger] ids@[j]@ != id@,
        decreases ids@.len() - i,
    {
        if ids[i] == *id {
            return true;
        }
        i = i + 1;
    }
    false
}

/// The identifiers of the items that `sprints` record, each once, in the
/// order of their first entry.
fn distinct_item_ids(sprints: &Vec<Sprint>) -> (ids: Vec<String>)
    ensures
        forall|i: int, j: int| 0 <= i < j < ids@.len() ==> ids@[i]@ != ids@[j]@,
        forall|i: int| 0 <= i < ids@.len() ==> appears(sprints@, #[trigger] ids@[i]@),
        forall|s: int, k: int|
            0 <= s < sprints@.len() && 0 <= k < sprints@[s].itens@.len() ==> id_listed(
                ids@,
                #[trigger] sprints@[s].itens@[k].item.id@,
            ),
{
    let mut ids: Vec<String> = Vec::new();
    let mut s: usize = 0;
    while s < sprints.len()
        invariant
            s <= sprints@.len(),
            forall|i: int, j: int| 0 <= i < j < ids@.len() ==> ids@[i]@ != ids@[j]@,
            forall|i: int| 0 <= i < ids@.len() ==> appears(sprints@, #[trigger] ids@[i]@),
            forall|s2: int, k: int|
                0 <= s2 < s && 0 <= k < sprints@[s2].itens@.len() ==> id_listed(
                    ids@,
                    #[trigger] sprints@[s2].itens@[k].item.id@,
                ),
        decreases sprints@.len() - s,
    {
        let itens = &sprints[s].itens;
        let mut k: usize = 0;
        while k < itens.len()
            invariant
                s < sprints@.len(),
                itens == &sprints@[s as int].itens,
                k <= itens@.len(),
                forall|i: int, j: int| 0 <= i < j < ids@.len() ==> ids@[i]@ != ids@[j]@,
                forall|i: int| 0 <= i < ids@.len() ==> appears(sprints@, #[trigger] ids@[i]@),
                forall|s2: int, k2: int|
                    0 <= s2 < s && 0 <= k2 < sprints@[s2].itens@.len() ==> id_listed(
                        ids@,
                        #[trigger] sprints@[s2].itens@[k2].item.id@,
                    ),
                forall|k2: int| 0 <= k2 < k ==> id_listed(ids@, #[trigger] itens@[k2].item.id@),
            decreases itens@.len() - k,
        {
            let id = &itens[k].item.id;
            if !holds_id(&ids, id) {
                let ghost before = ids@;
                ids.push(id.clone());
                proof {
                    assert(ids@[before.len() as int]@ == sprints@[s as int].itens@[k as int].item.id@);
                    assert(appears(sprints@, ids@[before.len() as int]@));
                    assert forall|x: Seq<char>| id_listed(before, x) implies id_listed(ids@, x) by {
                        let i = choose|i: int| 0 <= i < before.len() && #[trigger] before[i]@ == x;
                        assert(ids@[i] == before[i]);
                    }
                    assert(id_listed(ids@, itens@[k as int].item.id@));
                }
            }
            k = k + 1;
        }
        s = s + 1;
    }
    ids
}

impl Processo {
    /// A new process over `formula` with no sprints and a fresh identifier.
    pub fn new(nome: String, formula: Formula, status: String, weight: i128) -> (r: Processo)
        ensures
            r.nome == nome,
            r.formula == formula,
            r.status == status,
            r.weight == weight,
            r.sprints@.len() == 0,
            r.id@.len() == 36,
            r.created_at == r.updated_at,
            r.created_at >= 0,
    {
        let id = fresh_id();
        let now = now_millis();
        Processo {
            id,
            nome,
            formula,
            status,
            weight,
            sprints: Vec::new(),
            created_at: now,
            updated_at: now,
        }
    }

    /// A running process over a copy of `formula`, whose weight is the sum
    /// of the formula's weights.
    pub fn start(nome: String, formula: Formula) -> (r: Processo)
        ensures
            r.nome == nome,
            r.formula == formula,
            r.status@ == status_running(),
            r.weight == crate::formula::weight_sum(formula.itens@),
            r.sprints@.len() == 0,
            r.id@.len() == 36,
            r.created_at == r.updated_at,
    {
        let weight = formula.total_weight();
        Processo::new(nome, formula, String::from_str("Em Andamento"), weight)
    }

    /// This process with its sprints replaced by `sprints`.
    pub open spec fn with_sprints(&self, sprints: Vec<Sprint>) -> Processo {
        Processo { sprints, ..*self }
    }

    /// Appends `sprint`, marked as belonging to this process, and touches
    /// the process.
    pub fn add_sprint(&mut self, sprint: Sprint)
        ensures
            final(self).sprints@ == old(self).sprints@.push(
                Sprint { processo_id: old(self).id, ..sprint },
            ),
            final(self).updated_at >= 0,
            *final(self) == old(self).with_sprints(final(self).sprints).with_stamp(
                final(self).updated_at,
            ),
    {
        let mut sprint = sprint;
        sprint.processo_id = self.id.clone();
        self.sprints.push(sprint);
        self.touch();
    }

    /// For each item that some sprint records, the sum over every sprint of
    /// `actual - target` of its entries, an unrecorded actual counting zero;
    /// a total that leaves the finite range is reported as zero. Each item
    /// appears once.
    pub fn accumulate_divergences(&self) -> (r: Vec<ItemAmount<i128>>)
        ensures
            forall|i: int, j: int| 0 <= i < j < r@.len() ==> r@[i].item_id@ != r@[j].item_id@,
            forall|i: int| 0 <= i < r@.len() ==> appears(self.sprints@, #[trigger] r@[i].item_id@),
            forall|s: int, k: int|
                0 <= s < self.sprints@.len() && 0 <= k < self.sprints@[s].itens@.len()
                    ==> amount_listed(r@, #[trigger] self.sprints@[s].itens@[k].item.id@),
            forall|i: int|
                0 <= i < r@.len() ==> #[trigger] r@[i].amount == or_zero(
                    fold_sprints(self.sprints@, Some(r@[i].item_id@), Measure::Divergence),
                ),
            self.sprints@.len() == 0 ==> r@.len() == 0,
    {
        let ids = distinct_item_ids(&self.sprints);
        let mut r: Vec<ItemAmount<i128>> = Vec::new();
        let mut i: usize = 0;
        while i < ids.len()
            invariant
                i <= ids@.len(),
                r@.len() == i,
                forall|j: int| 0 <= j < i ==> #[trigger] r@[j].item_id@ == ids@[j]@,
                forall|j: int|
                    0 <= j < i ==> #[trigger] r@[j].amount == or_zero(
                        fold_sprints(self.sprints@, Some(r@[j].item_id@), Measure::Divergence),
                    ),
            decreases ids@.len() - i,
        {
            let total = running_total(&self.sprints, &ids[i], Measure::Divergence);
            let amount = match total {
                Some(v) => v,
                None => 0,
            };
            r.push(ItemAmount { item_id: ids[i].clone(), amount });
            i = i + 1;
        }
        proof {
            if self.sprints@.len() == 0 && r@.len() > 0 {
                assert(appears(self.sprints@, ids@[0]@));
            }
            assert forall|x: Seq<char>| id_listed(ids@, x) implies amount_listed(r@, x) by {
                let i = choose|i: int| 0 <= i < ids@.len() && #[trigger] ids@[i]@ == x;
                assert(r@[i].item_id@ == x);
            }
        }
        r
    }

    /// The target suggested for each entry of the formula, keyed by item,
    /// with `remaining_sprints` still to run: see `suggested_target`, with the
    /// total of the item's recorded actuals over all sprints. Nothing is
    /// suggested when no sprint remains.
    pub fn suggest_next_sprint_targets(&self, remaining_sprints: usize) -> (r: Vec<ItemAmount<i64>>)
        ensures
            remaining_sprints == 0 ==> r@.len() == 0,
            remaining_sprints > 0 ==> r@.len() == self.formula.itens@.len(),
            remaining_sprints > 0 ==> forall|k: int|
                0 <= k < r@.len() ==> #[trigger] r@[k].item_id@ == self.formula.itens@[k].item.id@
                    && r@[k].amount == entry_suggestion(
                    self.formula.itens@[k],
                    self.sprints@,
                    remaining_sprints as int,
                ),
            forall|k: int|
                0 <= k < r@.len() ==> -TARGET_BOUND <= #[trigger] r@[k].amount <= TARGET_BOUND,
    {
        let mut r: Vec<ItemAmount<i64>> = Vec::new();
        if remaining_sprints == 0 {
            return r;
        }
        let executed = self.sprints.len();
        let itens = &self.formula.itens;
        let mut k: usize = 0;
        while k < itens.len()
            invariant
                remaining_sprints > 0,
                executed == self.sprints@.len(),
                itens == &self.formula.itens,
                k <= itens@.len(),
                r@.len() == k,
                forall|j: int|
                    0 <= j < k ==> #[trigger] r@[j].item_id@ == itens@[j].item.id@
                        && r@[j].amount == entry_suggestion(
                        itens@[j],
                        self.sprints@,
                        remaining_sprints as int,
                    ),
                forall|j: int|
                    0 <= j < k ==> -TARGET_BOUND <= #[trigger] r@[j].amount <= TARGET_BOUND,
            decreases itens@.len() - k,
        {
            let entry = &itens[k];
            let recorded = running_total(&self.sprints, &entry.item.id, Measure::Recorded);
            let target = next_target(entry.peso, executed, remaining_sprints, recorded);
            proof {
                lemma_suggestion_bounded(
                    entry.peso as int,
                    executed as int,
                    remaining_sprints as int,
                    widen(recorded),
                );
            }
            r.push(ItemAmount { item_id: entry.item.id.clone(), amount: target });
            k = k + 1;
        }
        r
    }

    /// The next sprint for this process, operated by `operador`: numbered
    /// after the sprints so far, with one entry per formula entry whose
    /// target is the suggestion for its item, or its weight when no sprint
    /// remains.
    pub fn plan_next_sprint(&self, remaining_sprints: usize, operador: User) -> (r: Sprint)
        requires
            self.sprints@.len() < usize::MAX,
        ensures
            r.processo_id == self.id,
            r.numero == self.sprints@.len() + 1,
            r.operador_id == operador,
            r.comentario is None,
            r.itens@.len() == self.formula.itens@.len(),
            forall|k: int|
                0 <= k < r.itens@.len() ==> #[trigger] r.itens@[k] == (SprintItem {
                    item: self.formula.itens@[k].item,
                    target: planned_target(*self, remaining_sprints as int, k) as i64,
                    actual: None,
                }),
    {
        let suggestions = self.suggest_next_sprint_targets(remaining_sprints);
        let mut planned: Vec<SprintItem> = Vec::new();
        let mut k: usize = 0;
        while k < self.formula.itens.len()
            invariant
                k <= self.formula.itens@.len(),
                planned@.len() == k,
                remaining_sprints == 0 ==> suggestions@.len() == 0,
                remaining_sprints > 0 ==> suggestions@.len() == self.formula.itens@.len(),
                remaining_sprints > 0 ==> forall|j: int|
                    0 <= j < suggestions@.len() ==> #[trigger] suggestions@[j].item_id@
                        == self.formula.itens@[j].item.id@ && suggestions@[j].amount == entry_suggestion(
                        self.formula.itens@[j],
                        self.sprints@,
                        remaining_sprints as int,
                    ),
                forall|j: int|
                    0 <= j < k ==> #[trigger] planned@[j] == (SprintItem {
                        item: self.formula.itens@[j].item,
                        target: planned_target(*self, remaining_sprints as int, j) as i64,
                        actual: None,
                    }),
            decreases self.formula.itens@.len() - k,
        {
            let entry = &self.formula.itens[k];
            let found = lookup_amount(&suggestions, &entry.item.id);
            proof {
                if remaining_sprints > 0 {
                    lemma_suggestions_as_map(
                        suggestions@,
                        self.formula.itens@,
                        self.sprints@,
                        remaining_sprints as int,
                        self.formula.itens@[k as int].item.id@,
                    );
                } else {
                    assert(amount_for(suggestions@, self.formula.itens@[k as int].item.id@) is None);
                }
            }
            let target: i64 = match found {
                Some(t) => t,
                None => entry.peso,
            };
            planned.push(SprintItem::new(entry.item.clone(), target));
            k = k + 1;
        }
        Sprint::new(self.id.clone(), self.sprints.len() + 1, planned, operador)
    }

    /// Replaces the status and touches the process.
    pub fn update_status(&mut self, new_status: String)
        ensures
            final(self).updated_at >= 0,
            *final(self) == (Processo { status: new_status, ..*old(self) }).with_stamp(
                final(self).updated_at,
            ),
    {
        self.status = new_status;
        self.touch();
    }

    /// Marks the process finished and touches it.
    pub fn finalize(&mut self)
        ensures
            final(self).status@ == status_finished(),
            final(self).updated_at >= 0,
            *final(self) == (Processo { status: final(self).status, ..*old(self) }).with_stamp(
                final(self).updated_at,
            ),
    {
        self.update_status(String::from_str("Terminado"));
    }

    /// Drops every sprint and touches the process.
    pub fn clear_sprints(&mut self)
        ensures
            final(self).sprints@.len() == 0,
            final(self).updated_at >= 0,
            *final(self) == old(self).with_sprints(final(self).sprints).with_stamp(
                final(self).updated_at,
            ),
    {
        self.sprints.clear();
        self.touch();
    }
}

/// Every suggested target lies in `[-TARGET_BOUND, TARGET_BOUND]`.
pub proof fn lemma_suggestion_bounded(w: int, executed: int, remaining: int, recorded: Option<
    int,
>)
    ensures
        -TARGET_BOUND <= suggested_target(w, executed, remaining, recorded) <= TARGET_BOUND,
{
}

/// Suggestions made entry by entry, read as a map, give each item the
/// suggestion of its last formula entry.
proof fn lemma_suggestions_as_map(
    sugg: Seq<ItemAmount<i64>>,
    itens: Seq<ItemFormula>,
    sprints: Seq<Sprint>,
    remaining: int,
    id: Seq<char>,
)
    requires
        sugg.len() == itens.len(),
        forall|j: int|
            0 <= j < sugg.len() ==> #[trigger] sugg[j].item_id@ == itens[j].item.id@
                && sugg[j].amount == entry_suggestion(itens[j], sprints, remaining),
    ensures
        match amount_for(sugg, id) {
            Some(t) => formula_suggestion(itens, sprints, remaining, id) == Some(t as int),
            None => formula_suggestion(itens, sprints, remaining, id) is None,
        },
    decreases sugg.len(),
{
    if sugg.len() > 0 {
        lemma_suggestions_as_map(sugg.drop_last(), itens.drop_last(), sprints, remaining, id);
    }
}

impl Auditable for Processo {
    open spec fn stamp(&self) -> i64 {
        self.updated_at
    }

    open spec fn with_stamp(&self, t: i64) -> Self {
        Processo { updated_at: t, ..*self }
    }

    fn touch(&mut self) {
        self.updated_at = now_millis();
    }

    fn updated_at(&self) -> (r: i64) {
        self.updated_at
    }
}

} // verus!
