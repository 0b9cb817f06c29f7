//! Formulas: named weighted bills of materials.

use vstd::prelude::*;
use crate::audit::Auditable;
use crate::item::Item;
use crate::quantity::{div_round, is_finite, ratio_round, round_div, round_ratio, PER_UNIT};
use crate::runtime::{fresh_id, now_millis};

verus! {

/// Parts per million in a whole.
pub const PPM: i128 = 1_000_000;

/// One entry of a formula: an item copy and its absolute per-sprint weight,
/// in thousandths of a unit.
#[derive(Debug)]
pub struct ItemFormula {
    pub item: Item,
    pub peso: i64,
}

impl Clone for ItemFormula {
    fn clone(&self) -> (r: Self)
        ensures
            r == *self,
    {
        ItemFormula { item: self.item.clone(), peso: self.peso }
    }
}

impl ItemFormula {
    /// An entry for `item` weighing `peso` per sprint.
    pub fn new(item: Item, peso: i64) -> (r: ItemFormula)
        ensures
            r == (ItemFormula { item, peso }),
    {
        ItemFormula { item, peso }
    }
}

/// An item with its share of a formula's total weight, in parts per
/// million.
#[derive(Clone, Debug)]
pub struct ItemProporcao {
    pub item: Item,
    pub proporcao: i128,
}

/// A named list of weighted items.
#[derive(Clone, Debug)]
pub struct Formula {
    pub id: String,
    pub nome: String,
    pub itens: Vec<ItemFormula>,
    pub created_at: i64,
    pub updated_at: i64,
}

/// The sum of the weights of `s`.
pub open spec fn weight_sum(s: Seq<ItemFormula>) -> int
    decreases s.len(),
{
    if s.len() == 0 {
        0
    } else {
        weight_sum(s.drop_last()) + s.last().peso
    }
}

/// The sum of `s`.
pub open spec fn amount_sum(s: Seq<i64>) -> int
    decreases s.len(),
{
    if s.len() == 0 {
        0
    } else {
        amount_sum(s.drop_last()) + s.last()
    }
}

/// The share of `w` in `total`, in parts per million; zero when the total
/// is not positive.
pub open spec fn proportion_ppm(w: int, total: int) -> int {
    if total > 0 {
        div_round(w * PPM, total)
    } else {
        0
    }
}

/// The weight, in thousandths of a unit, that the proportion `p` out of
/// `total` gives: the fraction `p / total` of one unit. Zero when the total
/// is zero or the weight would not fit.
pub open spec fn weight_of_share(p: int, total: int) -> int {
    let v = ratio_round(p * PER_UNIT, total);
    if i64::MIN <= v <= i64::MAX {
        v
    } else {
        0
    }
}

/// The bound on a sum of `k` values of type `i64`.
pub open spec fn sum_bound(k: int, v: int) -> bool {
    -k * 0x8000_0000_0000_0000 <= v <= k * 0x7fff_ffff_ffff_ffff
}

proof fn lemma_sum_bound_step(k: int, v: int, x: int)
    requires
        0 <= k,
        sum_bound(k, v),
        i64::MIN <= x <= i64::MAX,
    ensures
        sum_bound(k + 1, v + x),
{
    assert(-(k + 1) * 0x8000_0000_0000_0000 == -k * 0x8000_0000_0000_0000 - 0x8000_0000_0000_0000)
        by (nonlinear_arith);
    assert((k + 1) * 0x7fff_ffff_ffff_ffff == k * 0x7fff_ffff_ffff_ffff + 0x7fff_ffff_ffff_ffff)
        by (nonlinear_arith);
}

proof fn lemma_sum_bound_fits(k: int, v: int)
    requires
        0 <= k <= usize::MAX,
        sum_bound(k, v),
    ensures
        i128::MIN < v <= i128::MAX,
{
    assert(k * 0x8000_0000_0000_0000 <= 0xffff_ffff_ffff_ffff * 0x8000_0000_0000_0000)
        by (nonlinear_arith)
        requires
            0 <= k <= 0xffff_ffff_ffff_ffff,
    ;
    assert(k * 0x7fff_ffff_ffff_ffff <= 0xffff_ffff_ffff_ffff * 0x7fff_ffff_ffff_ffff)
        by (nonlinear_arith)
        requires
            0 <= k <= 0xffff_ffff_ffff_ffff,
    ;
}

/// The sum of `s`.
fn sum_amounts(s: &Vec<i64>) -> (r: i128)
    ensures
        r == amount_sum(s@),
        r > i128::MIN,
{
    let mut acc: i128 = 0;
    let mut k: usize = 0;
    while k < s.len()
        invariant
            k <= s@.len(),
            acc == amount_sum(s@.subrange(0, k as int)),
            sum_bound(k as int, acc as int),
        decreases s@.len() - k,
    {
        proof {
            assert(s@.subrange(0, k + 1).drop_last() == s@.subrange(0, k as int));
            lemma_sum_bound_step(k as int, acc as int, s@[k as int] as int);
            lemma_sum_bound_fits(k + 1, acc + s@[k as int]);
        }
        acc = acc + s[k] as i128;
        k = k + 1;
    }
    proof {
        assert(s@.subrange(0, s@.len() as int) == s@);
        lemma_sum_bound_fits(k as int, acc as int);
    }
    acc
}

impl Formula {
    /// A new formula over `itens`, each with weight zero.
    pub fn new(nome: String, itens: Vec<Item>) -> (r: Formula)
        ensures
            r.nome == nome,
            r.itens@.len() == itens@.len(),
            forall|k: int|
                0 <= k < itens@.len() ==> #[trigger] r.itens@[k] == (ItemFormula {
                    item: itens@[k],
                    peso: 0,
                }),
            r.id@.len() == 36,
            r.created_at == r.updated_at,
            r.created_at >= 0,
    {
        let id = fresh_id();
        let now = now_millis();
        let mut entries: Vec<ItemFormula> = Vec::new();
        let mut k: usize = 0;
        while k < itens.len()
            invariant
                k <= itens@.len(),
                entries@.len() == k,
                forall|j: int|
                    0 <= j < k ==> #[trigger] entries@[j] == (ItemFormula {
                        item: itens@[j],
                        peso: 0,
                    }),
            decreases itens@.len() - k,
        {
            entries.push(ItemFormula::new(itens[k].clone(), 0));
            k = k + 1;
        }
        Formula { id, nome, itens: entries, created_at: now, updated_at: now }
    }

    /// This formula with its entries replaced by `itens`.
    pub open spec fn with_items(&self, itens: Vec<ItemFormula>) -> Formula {
        Formula { itens, ..*self }
    }

    /// The sum of the weights of all entries.
    pub fn total_weight(&self) -> (r: i128)
        ensures
            r == weight_sum(self.itens@),
    {
        let mut acc: i128 = 0;
        let mut k: usize = 0;
        while k < self.itens.len()
            invariant
                k <= self.itens@.len(),
                acc == weight_sum(self.itens@.subrange(0, k as int)),
                sum_bound(k as int, acc as int),
            decreases self.itens@.len() - k,
        {
            proof {
                assert(self.itens@.subrange(0, k + 1).drop_last() == self.itens@.subrange(
                    0,
                    k as int,
                ));
                lemma_sum_bound_step(k as int, acc as int, self.itens@[k as int].peso as int);
                lemma_sum_bound_fits(k + 1, acc + self.itens@[k as int].peso);
            }
            acc = acc + self.itens[k].peso as i128;
            k = k + 1;
        }
        proof {
            assert(self.itens@.subrange(0, self.itens@.len() as int) == self.itens@);
        }
        acc
    }

    /// Appends `item` with the absolute weight `peso` and touches the
    /// formula.
    pub fn add_item_by_weight(&mut self, item: Item, peso: i64)
        ensures
            final(self).itens@ == old(self).itens@.push(ItemFormula { item, peso }),
            final(self).updated_at >= 0,
            *final(self) == old(self).with_items(final(self).itens).with_stamp(
                final(self).updated_at,
            ),
    {
        self.itens.push(ItemFormula::new(item, peso));
        self.touch();
    }

    /// Appends the items paired, in order, with `proporcoes`, stopping at the
    /// shorter list; each weight is the pair's proportion divided by the sum
    /// of all of `proporcoes`, as a fraction of one unit. Touches the formula.
    pub fn add_itens_by_proportion(&mut self, itens: Vec<Item>, proporcoes: Vec<i64>)
        ensures
            final(self).itens@.len() == old(self).itens@.len() + if itens@.len()
                < proporcoes@.len() {
                itens@.len()
            } else {
                proporcoes@.len()
            },
            forall|k: int|
                0 <= k < old(self).itens@.len() ==> #[trigger] final(self).itens@[k]
                    == old(self).itens@[k],
            forall|k: int|
                0 <= k < final(self).itens@.len() - old(self).itens@.len()
                    ==> #[trigger] final(self).itens@[old(self).itens@.len() + k] == (ItemFormula {
                    item: itens@[k],
                    peso: weight_of_share(proporcoes@[k] as int, amount_sum(proporcoes@)) as i64,
                }),
            final(self).updated_at >= 0,
            *final(self) == old(self).with_items(final(self).itens).with_stamp(
                final(self).updated_at,
            ),
    {
        let total = sum_amounts(&proporcoes);
        let n = if itens.len() < proporcoes.len() {
            itens.len()
        } else {
            proporcoes.len()
        };
        let ghost start = self.itens@.len();
        let mut k: usize = 0;
        while k < n
            invariant
                k <= n,
                n <= itens@.len(),
                n <= proporcoes@.len(),
                total == amount_sum(proporcoes@),
                total > i128::MIN,
                self.itens@.len() == start + k,
                *self == old(self).with_items(self.itens),
                start == old(self).itens@.len(),
                forall|j: int| 0 <= j < start ==> #[trigger] self.itens@[j] == old(self).itens@[j],
                forall|j: int|
                    0 <= j < k ==> #[trigger] self.itens@[start + j] == (ItemFormula {
                        item: itens@[j],
                        peso: weight_of_share(proporcoes@[j] as int, amount_sum(proporcoes@))
                            as i64,
                    }),
            decreases n - k,
        {
            let scaled = proporcoes[k] as i128 * PER_UNIT as i128;
            let v = round_ratio(scaled, total);
            let peso: i64 = if i64::MIN as i128 <= v && v <= i64::MAX as i128 {
                v as i64
            } else {
                0
            };
            self.itens.push(ItemFormula::new(itens[k].clone(), peso));
            k = k + 1;
        }
        self.touch();
    }

    /// Each entry's item with its share of the total weight, in parts per
    /// million; every share is zero when the total is not positive.
    pub fn get_proportions(&self) -> (r: Vec<ItemProporcao>)
        ensures
            r@.len() == self.itens@.len(),
            forall|k: int|
                0 <= k < r@.len() ==> #[trigger] r@[k] == (ItemProporcao {
                    item: self.itens@[k].item,
                    proporcao: proportion_ppm(
                        self.itens@[k].peso as int,
                        weight_sum(self.itens@),
                    ) as i128,
                }),
    {
        let total = self.total_weight();
        let mut r: Vec<ItemProporcao> = Vec::new();
        let mut k: usize = 0;
        while k < self.itens.len()
            invariant
                k <= self.itens@.len(),
                total == weight_sum(self.itens@),
                r@.len() == k,
                forall|j: int|
                    0 <= j < k ==> #[trigger] r@[j] == (ItemProporcao {
                        item: self.itens@[j].item,
                        proporcao: proportion_ppm(
                            self.itens@[j].peso as int,
                            weight_sum(self.itens@),
                        ) as i128,
                    }),
            decreases self.itens@.len() - k,
        {
            let entry = &self.itens[k];
            let share = share_ppm(entry.peso, total);
            r.push(ItemProporcao { item: entry.item.clone(), proporcao: share });
            k = k + 1;
        }
        r
    }

    /// The share, in parts per million, of the first entry for item
    /// `item_id`; `None` when no entry is for it.
    pub fn get_proportion(&self, item_id: &str) -> (r: Option<i128>)
        ensures
            r is None <==> (forall|k: int|
                0 <= k < self.itens@.len() ==> #[trigger] self.itens@[k].item.id@ != item_id@),
            r matches Some(p) ==> exists|k: int|
                0 <= k < self.itens@.len() && self.itens@[k].item.id@ == item_id@ && (forall|
                    j: int,
                | 0 <= j < k ==> #[trigger] self.itens@[j].item.id@ != item_id@) && p
                    == proportion_ppm(self.itens@[k].peso as int, weight_sum(self.itens@)),
    {
        let key = item_id.to_owned();
        let total = self.total_weight();
        let mut k: usize = 0;
        while k < self.itens.len()
            invariant
                k <= self.itens@.len(),
                key@ == item_id@,
                total == weight_sum(self.itens@),
                forall|j: int| 0 <= j < k ==> #[trigger] self.itens@[j].item.id@ != item_id@,
            decreases self.itens@.len() - k,
        {
            if self.itens[k].item.id == key {
                return Some(share_ppm(self.itens[k].peso, total));
            }
            k = k + 1;
        }
        None
    }

    /// Whether some entry holds a copy of the item `item`.
    pub open spec fn uses_item(&self, item: &Item) -> bool {
        exists|k: int| 0 <= k < self.itens@.len() && #[trigger] self.itens@[k].item.id@ == item.id@
    }

    /// Entry `e` with its item copy brought up to date with `item` when it
    /// is a copy of that item; the weight is kept.
    pub open spec fn refreshed_entry(e: ItemFormula, item: Item) -> ItemFormula {
        if e.item.id@ == item.id@ {
            ItemFormula { item, peso: e.peso }
        } else {
            e
        }
    }

    /// Whether this formula's entries are those of `prev` with every copy
    /// of `item` brought up to date.
    pub open spec fn refreshed_from(&self, prev: Formula, item: Item) -> bool {
        &&& self.itens@.len() == prev.itens@.len()
        &&& forall|k: int|
            0 <= k < prev.itens@.len() ==> #[trigger] self.itens@[k] == Formula::refreshed_entry(
                prev.itens@[k],
                item,
            )
    }

    /// Brings every entry's copy of `item` up to date, keeping each weight;
    /// touches the formula when some entry changed. Returns whether one did.
    pub fn refresh_item(&mut self, item: &Item) -> (changed: bool)
        ensures
            changed == old(self).uses_item(item),
            final(self).refreshed_from(*old(self), *item),
            changed ==> final(self).updated_at >= 0 && *final(self) == old(self).with_items(
                final(self).itens,
            ).with_stamp(final(self).updated_at),
            !changed ==> *final(self) == *old(self),
    {
        let mut changed = false;
        let mut k: usize = 0;
        while k < self.itens.len()
            invariant
                k <= self.itens@.len(),
                self.itens@.len() == old(self).itens@.len(),
                *self == old(self).with_items(self.itens),
                !changed ==> *self == *old(self),
                changed == exists|j: int|
                    0 <= j < k && #[trigger] old(self).itens@[j].item.id@ == item.id@,
                forall|j: int|
                    0 <= j < k ==> #[trigger] self.itens@[j] == Formula::refreshed_entry(
                        old(self).itens@[j],
                        *item,
                    ),
                forall|j: int| k <= j < self.itens@.len() ==> #[trigger] self.itens@[j] == old(self).itens@[j],
            decreases self.itens@.len() - k,
        {
            if self.itens[k].item.id == item.id {
                let peso = self.itens[k].peso;
                self.itens.set(k, ItemFormula::new(item.clone(), peso));
                changed = true;
            }
            k = k + 1;
        }
        if changed {
            self.touch();
        }
        changed
    }
}

/// The share of `w` in `total`, in parts per million.
fn share_ppm(w: i64, total: i128) -> (r: i128)
    ensures
        r == proportion_ppm(w as int, total as int),
{
    if total > 0 {
        round_div(w as i128 * PPM, total)
    } else {
        0
    }
}

impl Auditable for Formula {
    open spec fn stamp(&self) -> i64 {
        self.updated_at
    }

    open spec fn with_stamp(&self, t: i64) -> Self {
        Formula { updated_at: t, ..*self }
    }

    fn touch(&mut self) {
        self.updated_at = now_millis();
    }

    fn updated_at(&self) -> (r: i64) {
        self.updated_at
    }
}

} // verus!
