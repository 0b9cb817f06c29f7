//! Reading collections: fixed-size pages and case-insensitive name search.
//!
//! A collection is handed over as the sequence of its documents in the
//! store's iteration order; page `p` of size `k` is the run of documents
//! from position `p * k` on, at most `k` long.

use vstd::prelude::*;
use crate::fornecedor::Fornecedor;
use crate::formula::Formula;
use crate::item::Item;
use crate::processo::Processo;
use crate::text::{lower_of, lowercase, name_matches, text_contains};
use crate::user::User;

verus! {

/// A document that name searches match against one of its text fields.
pub trait Named: Sized {
    /// The text field searches look at.
    spec fn label(&self) -> Seq<char>;

    fn label_text(&self) -> (r: &str)
        ensures
            r@ == self.label(),
    ;
}

impl Named for Fornecedor {
    open spec fn label(&self) -> Seq<char> {
        self.nome@
    }

    fn label_text(&self) -> (r: &str) {
        self.nome.as_str()
    }
}

impl Named for Item {
    open spec fn label(&self) -> Seq<char> {
        self.nome@
    }

    fn label_text(&self) -> (r: &str) {
        self.nome.as_str()
    }
}

impl Named for Formula {
    open spec fn label(&self) -> Seq<char> {
        self.nome@
    }

    fn label_text(&self) -> (r: &str) {
        self.nome.as_str()
    }
}

impl Named for Processo {
    open spec fn label(&self) -> Seq<char> {
        self.nome@
    }

    fn label_text(&self) -> (r: &str) {
        self.nome.as_str()
    }
}

impl Named for User {
    open spec fn label(&self) -> Seq<char> {
        self.username@
    }

    fn label_text(&self) -> (r: &str) {
        self.username.as_str()
    }
}

/// The smaller of `a` and `b`.
pub open spec fn min_int(a: int, b: int) -> int {
    if a < b {
        a
    } else {
        b
    }
}

/// Page `page` of size `size` of `s`: the documents from position
/// `page * size` on, at most `size` of them.
pub open spec fn page_of<T>(s: Seq<T>, page: int, size: int) -> Seq<T> {
    s.subrange(min_int(page * size, s.len() as int), min_int(page * size + size, s.len() as int))
}

/// Pages `0` to `n - 1` of size `size` of `s`, one after another.
pub open spec fn pages_upto<T>(s: Seq<T>, size: int, n: nat) -> Seq<T>
    decreases n,
{
    if n == 0 {
        Seq::empty()
    } else {
        pages_upto(s, size, (n - 1) as nat) + page_of(s, n - 1, size)
    }
}

/// The documents of `s` at the positions that `keep` flags, in order.
pub open spec fn select<T>(s: Seq<T>, keep: Seq<bool>) -> Seq<T>
    decreases s.len(),
{
    if s.len() == 0 {
        Seq::empty()
    } else if keep[s.len() - 1] {
        select(s.drop_last(), keep).push(s.last())
    } else {
        select(s.drop_last(), keep)
    }
}

/// The documents of `s` whose label matches `query`, in order.
pub open spec fn matching<T: Named>(s: Seq<T>, query: Seq<char>) -> Seq<T> {
    select(s, Seq::new(s.len(), |i: int| name_matches(s[i].label(), query)))
}

/// The documents of `docs` at the positions that `keep` flags, moved out
/// in order.
pub(crate) fn keep_flagged<T>(docs: Vec<T>, keep: &Vec<bool>) -> (r: Vec<T>)
    requires
        keep@.len() == docs@.len(),
    ensures
        r@ == select(docs@, keep@),
{
    let ghost all = docs@;
    let mut rest = docs;
    let mut taken: Vec<T> = Vec::new();
    let n = rest.len();
    // Walk from the back so each document is moved out, not copied.
    let mut k: usize = n;
    proof {
        assert(all.subrange(0, n as int) == all);
        assert(taken@.reverse() == Seq::<T>::empty());
        assert(select(all, keep@) + Seq::<T>::empty() == select(all, keep@));
    }
    while k > 0
        invariant
            k <= n,
            n == all.len(),
            keep@.len() == n,
            rest@ == all.subrange(0, k as int),
            select(all, keep@) == select(all.subrange(0, k as int), keep@) + taken@.reverse(),
        decreases k,
    {
        let d = rest.pop().unwrap();
        proof {
            assert(all.subrange(0, k as int).drop_last() == all.subrange(0, k - 1));
            assert(all.subrange(0, k as int).last() == d);
        }
        if keep[k - 1] {
            proof {
                assert(taken@.push(d).reverse() == seq![d] + taken@.reverse());
            }
            taken.push(d);
        }
        k = k - 1;
    }
    proof {
        assert(all.subrange(0, 0) == Seq::<T>::empty());
        assert(Seq::<T>::empty() + taken@.reverse() == taken@.reverse());
    }
    let ghost found = taken@;
    let mut kept: Vec<T> = Vec::new();
    let mut m: usize = taken.len();
    proof {
        assert(found.subrange(0, m as int) == found);
    }
    while m > 0
        invariant
            m <= found.len(),
            taken@ == found.subrange(0, m as int),
            kept@ == found.reverse().subrange(0, found.len() - m),
        decreases m,
    {
        let d = taken.pop().unwrap();
        proof {
            assert(d == found[m - 1]);
            assert(found.reverse()[found.len() - m] == d);
            assert(found.reverse().subrange(0, found.len() - m + 1) == found.reverse().subrange(
                0,
                found.len() - m,
            ).push(d));
            assert(found.subrange(0, m as int).drop_last() == found.subrange(0, m - 1));
        }
        kept.push(d);
        m = m - 1;
    }
    proof {
        assert(found.reverse().subrange(0, found.len() as int) == found.reverse());
    }
    kept
}

/// Page `page` of size `page_size` of `docs`.
pub fn paginate<T>(docs: Vec<T>, page: usize, page_size: usize) -> (r: Vec<T>)
    ensures
        r@ == page_of(docs@, page as int, page_size as int),
{
    let mut docs = docs;
    let len = docs.len();
    let start: usize = match page.checked_mul(page_size) {
        Some(s) => if s < len {
            s
        } else {
            len
        },
        None => len,
    };
    let mut rest = docs.split_off(start);
    if page_size < rest.len() {
        rest.truncate(page_size);
    }
    proof {
        let s = page as int * page_size as int;
        if s >= len {
            assert(min_int(s, len as int) == len);
            assert(min_int(s + page_size, len as int) == len);
        }
    }
    rest
}

/// Page `page` of size `page_size` of the documents of `docs` whose label
/// contains `query`, ignoring case. The filter comes first: pages count
/// matching documents only.
pub fn search_by_name<T: Named>(docs: Vec<T>, query: &str, page: usize, page_size: usize) -> (r:
    Vec<T>)
    ensures
        r@ == page_of(matching(docs@, query@), page as int, page_size as int),
{
    let lowered = lowercase(query);
    let mut keep: Vec<bool> = Vec::new();
    let mut k: usize = 0;
    while k < docs.len()
        invariant
            k <= docs@.len(),
            keep@.len() == k,
            lowered@ == lower_of(query@),
            forall|j: int| 0 <= j < k ==> #[trigger] keep@[j] == name_matches(docs@[j].label(), query@),
        decreases docs@.len() - k,
    {
        let lowered_label = lowercase(docs[k].label_text());
        keep.push(text_contains(lowered_label.as_str(), lowered.as_str()));
        k = k + 1;
    }
    proof {
        assert(keep@ == Seq::new(docs@.len(), |i: int| name_matches(docs@[i].label(), query@)));
    }
    paginate(keep_flagged(docs, &keep), page, page_size)
}

} // verus!
