//! Items: raw materials, each carrying an embedded copy of its supplier.

use vstd::prelude::*;
use crate::audit::Auditable;
use crate::fornecedor::Fornecedor;
use crate::runtime::{fresh_id, now_millis};
use crate::store::{keep_flagged, page_of, paginate, select};

verus! {

/// A raw material. `fornecedor` is a copy of the supplier whose identifier
/// is `fornecedor_id`, kept for read locality.
#[derive(Debug)]
pub struct Item {
    pub id: String,
    pub nome: String,
    pub fornecedor: Fornecedor,
    pub fornecedor_id: String,
    pub created_at: i64,
    pub updated_at: i64,
}

impl Clone for Item {
    fn clone(&self) -> (r: Self)
        ensures
            r == *self,
    {
        Item {
            id: self.id.clone(),
            nome: self.nome.clone(),
            fornecedor: self.fornecedor.clone(),
            fornecedor_id: self.fornecedor_id.clone(),
            created_at: self.created_at,
            updated_at: self.updated_at,
        }
    }
}

impl Item {
    /// A new item supplied by `fornecedor`, with a fresh identifier.
    pub fn new(nome: String, fornecedor: Fornecedor) -> (r: Item)
        ensures
            r.nome == nome,
            r.fornecedor == fornecedor,
            r.fornecedor_id == fornecedor.id,
            r.id@.len() == 36,
            r.created_at == r.updated_at,
            r.created_at >= 0,
    {
        let id = fresh_id();
        let fornecedor_id = fornecedor.id.clone();
        let now = now_millis();
        Item { id, nome, fornecedor, fornecedor_id, created_at: now, updated_at: now }
    }

    /// Whether this item's supplier foreign key names `s`.
    pub open spec fn supplied_by(&self, s: &Fornecedor) -> bool {
        self.fornecedor_id@ == s.id@
    }

    /// This item with its embedded supplier replaced by `s`.
    pub open spec fn with_supplier(&self, s: Fornecedor) -> Item {
        Item { fornecedor: s, ..*self }
    }

    /// Brings the embedded supplier copy up to date with `s`: when this item's
    /// foreign key names `s`, the copy becomes `s` and the item is touched;
    /// otherwise nothing changes. Returns whether the item changed.
    pub fn refresh_supplier(&mut self, s: &Fornecedor) -> (changed: bool)
        ensures
            changed == old(self).supplied_by(s),
            changed ==> final(self).updated_at >= 0
                && *final(self) == old(self).with_supplier(*s).with_stamp(final(self).updated_at),
            !changed ==> *final(self) == *old(self),
    {
        if self.fornecedor_id == s.id {
            self.fornecedor = s.clone();
            self.touch();
            true
        } else {
            false
        }
    }
}

/// The items of `s` whose supplier foreign key is `id`, in order.
pub open spec fn supplied_items(s: Seq<Item>, id: Seq<char>) -> Seq<Item> {
    select(s, Seq::new(s.len(), |i: int| s[i].fornecedor_id@ == id))
}

impl Item {
    /// Page `page` of size `page_size` of the items of `items` whose supplier
    /// foreign key is `fornecedor_id`. The filter comes first.
    pub fn list_by_fornecedor(items: Vec<Item>, fornecedor_id: &str, page: usize, page_size: usize) -> (r:
        Vec<Item>)
        ensures
            r@ == page_of(supplied_items(items@, fornecedor_id@), page as int, page_size as int),
    {
        let key = fornecedor_id.to_owned();
        let mut keep: Vec<bool> = Vec::new();
        let mut k: usize = 0;
        while k < items.len()
            invariant
                k <= items@.len(),
                keep@.len() == k,
                key@ == fornecedor_id@,
                forall|j: int| 0 <= j < k ==> #[trigger] keep@[j] == (items@[j].fornecedor_id@ == fornecedor_id@),
            decreases items@.len() - k,
        {
            keep.push(items[k].fornecedor_id == key);
            k = k + 1;
        }
        proof {
            assert(keep@ == Seq::new(items@.len(), |i: int| items@[i].fornecedor_id@ == fornecedor_id@));
        }
        paginate(keep_flagged(items, &keep), page, page_size)
    }
}

impl Auditable for Item {
    open spec fn stamp(&self) -> i64 {
        self.updated_at
    }

    open spec fn with_stamp(&self, t: i64) -> Self {
        Item { updated_at: t, ..*self }
    }

    fn touch(&mut self) {
        self.updated_at = now_millis();
    }

    fn updated_at(&self) -> (r: i64) {
        self.updated_at
    }
}

} // verus!
