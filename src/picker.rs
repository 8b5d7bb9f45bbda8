//! The asset picker's list: the inventory paths of the wanted asset type
//! that hold the typed search text. Matching is on bytes and case-sensitive;
//! an empty search text matches every path.

use crate::indexer::{entries_view, InventoryEntry};
use vstd::prelude::*;

verus! {

/// `needle` occurs in `hay` starting at byte `i`.
pub open spec fn occurs_at(hay: Seq<u8>, needle: Seq<u8>, i: int) -> bool {
    &&& 0 <= i
    &&& i + needle.len() <= hay.len()
    &&& hay.subrange(i, i + needle.len()) == needle
}

/// `needle` occurs somewhere in `hay`.
pub open spec fn contains_bytes(hay: Seq<u8>, needle: Seq<u8>) -> bool {
    exists|i: int| occurs_at(hay, needle, i)
}

/// The paths, in inventory order, of the entries with type `tag` whose path
/// holds `query`.
pub open spec fn visible(inv: Seq<(Seq<u8>, u64)>, tag: u64, query: Seq<u8>) -> Seq<Seq<u8>>
    decreases inv.len(),
{
    if inv.len() == 0 {
        Seq::empty()
    } else {
        let rest = visible(inv.drop_last(), tag, query);
        let e = inv.last();
        if e.1 == tag && contains_bytes(e.0, query) {
            rest.push(e.0)
        } else {
            rest
        }
    }
}

pub open spec fn paths_view(v: Seq<Vec<u8>>) -> Seq<Seq<u8>> {
    v.map_values(|p: Vec<u8>| p@)
}

/// Whether `query` occurs in `path`.
pub fn contains_query(path: &Vec<u8>, query: &[u8]) -> (r: bool)
    ensures
        r == contains_bytes(path@, query@),
{
    let n: usize = query.len();
    let len: usize = path.len();
    if n > len {
        assert forall|i: int| !occurs_at(path@, query@, i) by {}
        return false;
    }
    let mut i: usize = 0;
    while i <= len - n
        invariant
            n == query@.len(),
            len == path@.len(),
            n <= len,
            i <= len - n + 1,
            forall|k: int| 0 <= k < i ==> !occurs_at(path@, query@, k),
        decreases len - n + 1 - i,
    {
        let mut j: usize = 0;
        while j < n && path[i + j] == query[j]
            invariant
                n == query@.len(),
                len == path@.len(),
                i + n <= len,
                j <= n,
                forall|t: int| 0 <= t < j ==> path@[i + t] == query@[t],
            decreases n - j,
        {
            j = j + 1;
        }
        if j == n {
            assert(path@.subrange(i as int, i + n) =~= query@);
            assert(occurs_at(path@, query@, i as int));
            return true;
        }
        assert(path@.subrange(i as int, i + n)[j as int] != query@[j as int]);
        i = i + 1;
    }
    assert forall|k: int| !occurs_at(path@, query@, k) by {}
    false
}

/// The paths that the picker lists for assets of type `type_tag` under the
/// search text `query`: those entries of `inventory` with that type whose
/// path holds `query`, in inventory order.
pub fn visible_paths(inventory: &Vec<InventoryEntry>, type_tag: u64, query: &[u8]) -> (r: Vec<
    Vec<u8>,
>)
    ensures
        paths_view(r@) == visible(entries_view(inventory@), type_tag, query@),
        r@.len() == visible(entries_view(inventory@), type_tag, query@).len(),
{
    let mut r: Vec<Vec<u8>> = Vec::new();
    let mut i: usize = 0;
    while i < inventory.len()
        invariant
            i <= inventory@.len(),
            paths_view(r@) == visible(entries_view(inventory@.take(i as int)), type_tag, query@),
        decreases inventory@.len() - i,
    {
        let e = &inventory[i];
        let ghost before = r@;
        if e.type_tag == type_tag && contains_query(&e.path, query) {
            let p = e.path.clone();
            assert(p@ =~= e.path@);
            r.push(p);
            assert(paths_view(r@) =~= paths_view(before).push(e.path@));
        }
        assert(entries_view(inventory@.take(i + 1)).drop_last() =~= entries_view(
            inventory@.take(i as int),
        ));
        assert(entries_view(inventory@.take(i + 1)).last() == e@);
        i = i + 1;
    }
    assert(inventory@.take(i as int) =~= inventory@);
    r
}

} // verus!
