//! Creating entities that refer to others by identifier: the referenced
//! entity must exist, and its copy is embedded.

use vstd::prelude::*;
use crate::formula::{Formula, ItemFormula};
use crate::fornecedor::Fornecedor;
use crate::item::Item;
use crate::processo::Processo;
use crate::sprint::Sprint;
use crate::store::Named;
use crate::user::User;

verus! {

/// Why creating an entity was refused.
#[derive(Clone, Copy, Debug, PartialEq, Eq, Structural)]
pub enum ErrorKind {
    /// The new entity refers to one that does not exist.
    ValidationFailure,
}

/// A document with a unique identifier.
pub trait Keyed: Sized {
    /// The identifier.
    spec fn key(&self) -> Seq<char>;

    fn key_text(&self) -> (r: &String)
        ensures
            r@ == self.key(),
    ;
}

impl Keyed for Fornecedor {
    open spec fn key(&self) -> Seq<char> {
        self.id@
    }

    fn key_text(&self) -> (r: &String) {
        &self.id
    }
}

impl Keyed for Item {
    open spec fn key(&self) -> Seq<char> {
        self.id@
    }

    fn key_text(&self) -> (r: &String) {
        &self.id
    }
}

impl Keyed for Formula {
    open spec fn key(&self) -> Seq<char> {
        self.id@
    }

    fn key_text(&self) -> (r: &String) {
        &self.id
    }
}

impl Keyed for Sprint {
    open spec fn key(&self) -> Seq<char> {
        self.id@
    }

    fn key_text(&self) -> (r: &String) {
        &self.id
    }
}

impl Keyed for User {
    open spec fn key(&self) -> Seq<char> {
        self.id@
    }

    fn key_text(&self) -> (r: &String) {
        &self.id
    }
}

impl Keyed for Processo {
    open spec fn key(&self) -> Seq<char> {
        self.id@
    }

    fn key_text(&self) -> (r: &String) {
        &self.id
    }
}

/// Whether some document of `s` has the identifier `id`.
pub open spec fn has_key<T: Keyed>(s: Seq<T>, id: Seq<char>) -> bool {
    exists|k: int| 0 <= k < s.len() && #[trigger] s[k].key() == id
}

/// Whether `k` is the first position of `s` whose key is `id`.
pub open spec fn first_with_key<T: Keyed>(s: Seq<T>, id: Seq<char>, k: int) -> bool {
    &&& 0 <= k < s.len()
    &&& s[k].key() == id
    &&& forall|j: int| 0 <= j < k ==> #[trigger] s[j].key() != id
}

/// Whether `k` is the first position of `s` whose label is `name`.
pub open spec fn first_with_label<T: Named>(s: Seq<T>, name: Seq<char>, k: int) -> bool {
    &&& 0 <= k < s.len()
    &&& s[k].label() == name
    &&& forall|j: int| 0 <= j < k ==> #[trigger] s[j].label() != name
}

/// The position of the first document of `docs` whose identifier is `id`.
pub fn position_of<T: Keyed>(docs: &Vec<T>, id: &str) -> (r: Option<usize>)
    ensures
        r is None <==> forall|k: int| 0 <= k < docs@.len() ==> #[trigger] docs@[k].key() != id@,
        r matches Some(k) ==> first_with_key(docs@, id@, k as int),
{
    let key = id.to_owned();
    let mut k: usize = 0;
    while k < docs.len()
        invariant
            k <= docs@.len(),
            key@ == id@,
            forall|j: int| 0 <= j < k ==> #[trigger] docs@[j].key() != id@,
        decreases docs@.len() - k,
    {
        if *docs[k].key_text() == key {
            return Some(k);
        }
        k = k + 1;
    }
    None
}

/// The position of the first document of `docs` whose label is exactly
/// `name`.
pub fn position_named<T: Named>(docs: &Vec<T>, name: &str) -> (r: Option<usize>)
    ensures
        r is None <==> forall|k: int| 0 <= k < docs@.len() ==> #[trigger] docs@[k].label() != name@,
        r matches Some(k) ==> first_with_label(docs@, name@, k as int),
{
    let wanted = name.to_owned();
    let mut k: usize = 0;
    while k < docs.len()
        invariant
            k <= docs@.len(),
            wanted@ == name@,
            forall|j: int| 0 <= j < k ==> #[trigger] docs@[j].label() != name@,
        decreases docs@.len() - k,
    {
        let label = docs[k].label_text().to_owned();
        if label == wanted {
            return Some(k);
        }
        k = k + 1;
    }
    None
}

/// Whether `x` is the first document of `s` with identifier `id`.
pub open spec fn first_keyed<T: Keyed>(s: Seq<T>, id: Seq<char>, x: T) -> bool {
    exists|k: int| first_with_key(s, id, k) && s[k] == x
}

/// A new item named `nome` supplied by the supplier of `fornecedores` whose
/// identifier is `fornecedor_id` (the first, should several share it);
/// `ValidationFailure` when there is none.
pub fn new_item(nome: String, fornecedor_id: &str, fornecedores: &Vec<Fornecedor>) -> (r: Result<
    Item,
    ErrorKind,
>)
    ensures
        r is Err <==> !has_key(fornecedores@, fornecedor_id@),
        r matches Err(e) ==> e == ErrorKind::ValidationFailure,
        r matches Ok(item) ==> item.nome == nome && item.fornecedor_id@ == fornecedor_id@
            && first_keyed(fornecedores@, fornecedor_id@, item.fornecedor),
{
    match position_of(fornecedores, fornecedor_id) {
        Some(k) => Ok(Item::new(nome, fornecedores[k].clone())),
        None => Err(ErrorKind::ValidationFailure),
    }
}

/// The weight the last of `requested` for item `id` asks for.
pub open spec fn requested_weight(requested: Seq<(String, i64)>, id: Seq<char>) -> Option<i64>
    decreases requested.len(),
{
    if requested.len() == 0 {
        None
    } else if requested.last().0@ == id {
        Some(requested.last().1)
    } else {
        requested_weight(requested.drop_last(), id)
    }
}

/// The weight the last of `requested` for item `id` asks for.
fn weight_requested(requested: &Vec<(String, i64)>, id: &String) -> (r: Option<i64>)
    ensures
        r == requested_weight(requested@, id@),
{
    let mut k: usize = requested.len();
    proof {
        assert(requested@.subrange(0, requested@.len() as int) == requested@);
    }
    while k > 0
        invariant
            k <= requested@.len(),
            requested_weight(requested@, id@) == requested_weight(
                requested@.subrange(0, k as int),
                id@,
            ),
        decreases k,
    {
        proof {
            assert(requested@.subrange(0, k as int).drop_last() == requested@.subrange(0, k - 1));
        }
        if requested[k - 1].0 == *id {
            return Some(requested[k - 1].1);
        }
        k = k - 1;
    }
    None
}

/// A new formula named `nome` with one entry per pair of `requested`, in
/// order: the item of `itens` with the pair's identifier (the first, should
/// several share it), weighted as the last pair for that item asks.
/// `ValidationFailure` when some identifier names no item of `itens`.
pub fn new_formula(nome: String, requested: &Vec<(String, i64)>, itens: &Vec<Item>) -> (r: Result<
    Formula,
    ErrorKind,
>)
    ensures
        r is Err <==> exists|q: int|
            0 <= q < requested@.len() && !has_key(itens@, #[trigger] requested@[q].0@),
        r matches Err(e) ==> e == ErrorKind::ValidationFailure,
        r matches Ok(f) ==> f.nome == nome && f.itens@.len() == requested@.len() && forall|q: int|
            0 <= q < requested@.len() ==> first_keyed(itens@, requested@[q].0@, #[trigger] f.itens@[q].item)
                && f.itens@[q].peso == requested_weight(requested@, requested@[q].0@).unwrap(),
{
    let mut chosen: Vec<Item> = Vec::new();
    let mut q: usize = 0;
    while q < requested.len()
        invariant
            q <= requested@.len(),
            chosen@.len() == q,
            forall|j: int| 0 <= j < q ==> first_keyed(itens@, requested@[j].0@, #[trigger] chosen@[j]),
        decreases requested@.len() - q,
    {
        match position_of(itens, requested[q].0.as_str()) {
            Some(k) => {
                let ghost before = chosen@;
                chosen.push(itens[k].clone());
                proof {
                    assert forall|j: int| 0 <= j < q + 1 implies first_keyed(
                        itens@,
                        requested@[j].0@,
                        #[trigger] chosen@[j],
                    ) by {
                        if j < q {
                            assert(chosen@[j] == before[j]);
                        } else {
                            assert(chosen@[j] == itens@[k as int]);
                            assert(first_with_key(itens@, requested@[j].0@, k as int));
                        }
                    }
                }
            },
            None => {
                proof {
                    assert(!has_key(itens@, requested@[q as int].0@));
                }
                return Err(ErrorKind::ValidationFailure);
            },
        }
        q = q + 1;
    }
    proof {
        assert forall|j: int| 0 <= j < requested@.len() implies has_key(
            itens@,
            #[trigger] requested@[j].0@,
        ) by {
            assert(first_keyed(itens@, requested@[j].0@, chosen@[j]));
            let k = choose|k: int| first_with_key(itens@, requested@[j].0@, k) && itens@[k] == chosen@[j];
            assert(itens@[k].key() == requested@[j].0@);
        }
    }
    let ghost picked = chosen@;
    let mut f = Formula::new(nome, chosen);
    let ghost base = f;
    let mut e: usize = 0;
    while e < requested.len()
        invariant
            e <= requested@.len(),
            f.itens@.len() == requested@.len(),
            f.nome == base.nome,
            base.nome == nome,
            forall|j: int|
                0 <= j < requested@.len() ==> first_keyed(itens@, requested@[j].0@, #[trigger] picked[j]),
            forall|j: int|
                0 <= j < requested@.len() ==> #[trigger] base.itens@[j] == (ItemFormula {
                    item: picked[j],
                    peso: 0,
                }),
            forall|j: int|
                0 <= j < e ==> #[trigger] f.itens@[j] == (ItemFormula {
                    item: picked[j],
                    peso: requested_weight(requested@, requested@[j].0@).unwrap(),
                }),
            forall|j: int| e <= j < requested@.len() ==> #[trigger] f.itens@[j] == base.itens@[j],
        decreases requested@.len() - e,
    {
        let w = weight_requested(requested, &requested[e].0);
        proof {
            lemma_requested_weight_present(requested@, e as int);
        }
        let entry = ItemFormula::new(f.itens[e].item.clone(), w.unwrap());
        f.itens.set(e, entry);
        e = e + 1;
    }
    Ok(f)
}

proof fn lemma_requested_weight_present(requested: Seq<(String, i64)>, q: int)
    requires
        0 <= q < requested.len(),
    ensures
        requested_weight(requested, requested[q].0@) is Some,
    decreases requested.len(),
{
    if q < requested.len() - 1 && requested.last().0@ != requested[q].0@ {
        lemma_requested_weight_present(requested.drop_last(), q);
    }
}

} // verus!
