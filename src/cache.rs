//! The derivative cache: which original image has which downscaled
//! derivative, and which assets are derivatives themselves.
//!
//! Assets are named by their identity (`AssetId`); the store that owns the
//! pixel data and the texture registry live outside this module.

use std::collections::{HashMap, HashSet};
use vstd::prelude::*;

verus! {

broadcast use vstd::std_specs::hash::group_hash_axioms;

/// Identity of an asset in the host's asset store.
pub type AssetId = u64;

/// What a lookup found for an original asset.
#[derive(PartialEq, Eq, Structural, Clone, Copy, Debug)]
pub enum CacheOutcome {
    /// The asset already has this derivative.
    Hit(AssetId),
    /// The asset has no derivative yet: the caller derives one and inserts it.
    Miss,
    /// The asset is itself a derivative and is never derived again.
    AlreadyDerivative,
}

/// The mathematical state of a cache: the original-to-derivative mapping and
/// the set of every asset that was ever stored as a derivative.
pub struct CacheModel {
    pub mapping: Map<AssetId, AssetId>,
    pub derivatives: Set<AssetId>,
}

impl CacheModel {
    /// Every stored derivative is known as one, and no known derivative is a key.
    pub open spec fn wf(self) -> bool {
        &&& forall|k: AssetId| #[trigger]
            self.mapping.contains_key(k) ==> self.derivatives.contains(self.mapping[k])
        &&& forall|k: AssetId| #[trigger]
            self.mapping.contains_key(k) ==> !self.derivatives.contains(k)
    }

    /// What a lookup of `original` answers in this state.
    pub open spec fn outcome(self, original: AssetId) -> CacheOutcome {
        if self.mapping.contains_key(original) {
            CacheOutcome::Hit(self.mapping[original])
        } else if self.derivatives.contains(original) {
            CacheOutcome::AlreadyDerivative
        } else {
            CacheOutcome::Miss
        }
    }

    /// Whether storing `derivative` for `original` keeps the state well formed:
    /// the original is not a derivative, and the derivative is neither the
    /// original nor an original of another entry.
    pub open spec fn admits(self, original: AssetId, derivative: AssetId) -> bool {
        &&& !self.derivatives.contains(original)
        &&& original != derivative
        &&& !self.mapping.contains_key(derivative)
    }

    /// The state after an insert: the entry is stored (replacing an earlier
    /// derivative of the same original) when it is admitted, else nothing changes.
    pub open spec fn after_insert(self, original: AssetId, derivative: AssetId) -> CacheModel {
        if self.admits(original, derivative) {
            CacheModel {
                mapping: self.mapping.insert(original, derivative),
                derivatives: self.derivatives.insert(derivative),
            }
        } else {
            self
        }
    }

    pub proof fn lemma_insert_keeps_wf(self, original: AssetId, derivative: AssetId)
        requires
            self.wf(),
        ensures
            self.after_insert(original, derivative).wf(),
    {
        let next = self.after_insert(original, derivative);
        if self.admits(original, derivative) {
            assert forall|k: AssetId| #[trigger] next.mapping.contains_key(k) implies
                next.derivatives.contains(next.mapping[k]) && !next.derivatives.contains(k) by {
                if k != original {
                    assert(self.mapping.contains_key(k));
                }
            }
        }
    }

    /// The state after inserting each of `ds`, in order, for `original`.
    pub open spec fn after_inserts(self, original: AssetId, ds: Seq<AssetId>) -> CacheModel
        decreases ds.len(),
    {
        if ds.len() == 0 {
            self
        } else {
            self.after_inserts(original, ds.drop_last()).after_insert(original, ds.last())
        }
    }
}

/// A cached original keeps answering with the same derivative: a lookup is
/// a `Hit` on the stored derivative, and it stays so whatever is inserted
/// for any other original.
pub proof fn lemma_hit_is_stable(c: CacheModel, r: AssetId, other: AssetId, d: AssetId)
    requires
        c.wf(),
        c.mapping.contains_key(r),
        other != r,
    ensures
        c.outcome(r) == CacheOutcome::Hit(c.mapping[r]),
        c.after_insert(other, d).outcome(r) == c.outcome(r),
{
}

/// Once `d` is stored as a derivative, a lookup of `d` answers
/// `AlreadyDerivative`, and no derivative of `d` can be inserted.
pub proof fn lemma_derivative_is_not_rederived(c: CacheModel, original: AssetId, d: AssetId)
    requires
        c.wf(),
        c.admits(original, d),
    ensures
        c.after_insert(original, d).outcome(d) == CacheOutcome::AlreadyDerivative,
        forall|x: AssetId| !(#[trigger] c.after_insert(original, d).admits(d, x)),
{
}

/// In a well-formed state every stored derivative looks up as
/// `AlreadyDerivative`, never as `Miss`.
pub proof fn lemma_stored_derivatives_are_final(c: CacheModel, k: AssetId)
    requires
        c.wf(),
        c.mapping.contains_key(k),
    ensures
        c.outcome(c.mapping[k]) == CacheOutcome::AlreadyDerivative,
{
}

/// Several derivations that raced for the same original and are inserted
/// one after another leave exactly one entry for that original, holding the
/// last inserted derivative; every other entry is unchanged, all of them are
/// known derivatives, and the cache stays well formed.
pub proof fn lemma_racing_inserts(c: CacheModel, original: AssetId, ds: Seq<AssetId>)
    requires
        c.wf(),
        ds.len() > 0,
        !c.derivatives.contains(original),
        forall|i: int| 0 <= i < ds.len() ==> #[trigger] ds[i] != original
            && !c.mapping.contains_key(ds[i]),
    ensures
        c.after_inserts(original, ds).wf(),
        c.after_inserts(original, ds).mapping.dom() == c.mapping.dom().insert(original),
        c.after_inserts(original, ds).mapping[original] == ds.last(),
        c.after_inserts(original, ds).mapping.remove(original) == c.mapping.remove(original),
        forall|i: int| 0 <= i < ds.len() ==> c.after_inserts(original, ds).derivatives.contains(
            #[trigger] ds[i],
        ),
    decreases ds.len(),
{
    let prefix = ds.drop_last();
    if prefix.len() == 0 {
        c.lemma_insert_keeps_wf(original, ds.last());
        assert(c.after_inserts(original, prefix) == c);
        assert(c.after_inserts(original, ds).mapping.dom() =~= c.mapping.dom().insert(original));
        assert(c.after_inserts(original, ds).mapping.remove(original) =~= c.mapping.remove(
            original,
        ));
    } else {
        assert forall|i: int| 0 <= i < prefix.len() implies #[trigger] prefix[i] != original
            && !c.mapping.contains_key(prefix[i]) by {
            assert(prefix[i] == ds[i]);
        }
        lemma_racing_inserts(c, original, prefix);
        let mid = c.after_inserts(original, prefix);
        assert(ds.last() == ds[ds.len() - 1]);
        assert(mid.mapping.dom().contains(original));
        assert(mid.mapping.contains_key(original));
        assert(!mid.mapping.dom().contains(ds.last()));
        assert(mid.admits(original, ds.last()));
        mid.lemma_insert_keeps_wf(original, ds.last());
        let end = c.after_inserts(original, ds);
        assert(end.mapping.dom() =~= c.mapping.dom().insert(original));
        assert(end.mapping.remove(original) =~= c.mapping.remove(original));
        assert forall|i: int| 0 <= i < ds.len() implies end.derivatives.contains(
            #[trigger] ds[i],
        ) by {
            if i < ds.len() - 1 {
                assert(prefix[i] == ds[i]);
            }
        }
    }
}

/// The cache of downscaled derivatives. It holds no lock: a host that shares
/// it between threads guards it, and keeps the lock only for a lookup or an
/// insert, never across the rescale between them.
pub struct DerivativeCache {
    mapping: HashMap<AssetId, AssetId>,
    derivatives: HashSet<AssetId>,
}

impl View for DerivativeCache {
    type V = CacheModel;

    closed spec fn view(&self) -> CacheModel {
        CacheModel { mapping: self.mapping@, derivatives: self.derivatives@ }
    }
}

impl DerivativeCache {
    pub open spec fn wf(&self) -> bool {
        self@.wf()
    }

    /// An empty cache.
    pub fn new() -> (r: DerivativeCache)
        ensures
            r.wf(),
            r@.mapping == Map::<AssetId, AssetId>::empty(),
            r@.derivatives == Set::<AssetId>::empty(),
    {
        DerivativeCache { mapping: HashMap::new(), derivatives: HashSet::new() }
    }

    /// Looks `original` up: its derivative if it has one, `AlreadyDerivative`
    /// if it is a derivative itself, else `Miss`.
    pub fn lookup_or_reserve(&self, original: AssetId) -> (r: CacheOutcome)
        ensures
            r == self@.outcome(original),
    {
        match self.mapping.get(&original) {
            Some(d) => CacheOutcome::Hit(*d),
            None => {
                if self.derivatives.contains(&original) {
                    CacheOutcome::AlreadyDerivative
                } else {
                    CacheOutcome::Miss
                }
            },
        }
    }

    /// Records `derivative` as the derivative of `original`, and as a known
    /// derivative. Returns whether the entry was stored: it is refused when
    /// it would make a derivative an original (see `CacheModel::admits`).
    /// A later insert for the same original replaces the earlier derivative,
    /// which stays known as a derivative.
    pub fn insert(&mut self, original: AssetId, derivative: AssetId) -> (stored: bool)
        requires
            old(self).wf(),
        ensures
            final(self).wf(),
            final(self)@ == old(self)@.after_insert(original, derivative),
            stored == old(self)@.admits(original, derivative),
    {
        if original == derivative || self.derivatives.contains(&original)
            || self.mapping.contains_key(&derivative) {
            return false;
        }
        let ghost before = self@;
        self.mapping.insert(original, derivative);
        self.derivatives.insert(derivative);
        proof {
            before.lemma_insert_keeps_wf(original, derivative);
        }
        true
    }

    /// The number of originals that have a derivative.
    pub fn len(&self) -> (r: usize)
        ensures
            r == self@.mapping.len(),
    {
        self.mapping.len()
    }
}

} // verus!
