//! The asset-directory scan as a state machine.
//!
//! The host lists the storage root and asks which loader takes each entry;
//! it reports what it sees as calls on `AssetIndexer`, which keeps the entries
//! that have a loader and publishes them, in order, as one snapshot when the
//! scan ends. A listing that fails publishes an empty inventory.

use vstd::prelude::*;

verus! {

/// An entry of the inventory: a relative path, byte for byte, and the type
/// tag of the asset that its loader produces.
pub struct InventoryEntry {
    pub path: Vec<u8>,
    pub type_tag: u64,
}

impl View for InventoryEntry {
    type V = (Seq<u8>, u64);

    open spec fn view(&self) -> (Seq<u8>, u64) {
        (self.path@, self.type_tag)
    }
}

pub open spec fn entries_view(v: Seq<InventoryEntry>) -> Seq<(Seq<u8>, u64)> {
    v.map_values(|e: InventoryEntry| e@)
}

/// Where a scan stands.
#[derive(PartialEq, Eq, Structural, Clone, Copy, Debug)]
pub enum ScanPhase {
    Idle,
    Scanning,
    Published,
}

/// The scan state: its phase, the entries gathered by the running scan, and
/// the inventory that the last finished scan published.
pub struct AssetIndexer {
    phase: ScanPhase,
    pending: Vec<InventoryEntry>,
    published: Vec<InventoryEntry>,
}

pub struct IndexerModel {
    pub phase: ScanPhase,
    pub pending: Seq<(Seq<u8>, u64)>,
    pub published: Seq<(Seq<u8>, u64)>,
}

impl View for AssetIndexer {
    type V = IndexerModel;

    closed spec fn view(&self) -> IndexerModel {
        IndexerModel {
            phase: self.phase,
            pending: entries_view(self.pending@),
            published: entries_view(self.published@),
        }
    }
}

impl AssetIndexer {
    /// An indexer that has not scanned yet, with an empty inventory.
    pub fn new() -> (r: AssetIndexer)
        ensures
            r@.phase == ScanPhase::Idle,
            r@.pending == Seq::<(Seq<u8>, u64)>::empty(),
            r@.published == Seq::<(Seq<u8>, u64)>::empty(),
    {
        let r = AssetIndexer { phase: ScanPhase::Idle, pending: Vec::new(), published: Vec::new() };
        assert(r@.pending =~= Seq::<(Seq<u8>, u64)>::empty());
        assert(r@.published =~= Seq::<(Seq<u8>, u64)>::empty());
        r
    }

    /// The phase of the scan.
    pub fn phase(&self) -> (r: ScanPhase)
        ensures
            r == self@.phase,
    {
        self.phase
    }

    /// Starts a scan, from any phase: the entries of an unfinished scan are
    /// dropped, and the published inventory stays until this scan ends.
    pub fn start_scan(&mut self)
        ensures
            final(self)@.phase == ScanPhase::Scanning,
            final(self)@.pending == Seq::<(Seq<u8>, u64)>::empty(),
            final(self)@.published == old(self)@.published,
    {
        self.phase = ScanPhase::Scanning;
        self.pending = Vec::new();
        assert(self@.pending =~= Seq::<(Seq<u8>, u64)>::empty());
    }

    /// Reports an entry of the listing, with the type tag of the loader that
    /// takes it, if any. While scanning, an entry with a loader is kept;
    /// otherwise nothing changes.
    pub fn entry_found(&mut self, path: Vec<u8>, loader_type: Option<u64>)
        ensures
            final(self)@.phase == old(self)@.phase,
            final(self)@.published == old(self)@.published,
            final(self)@.pending == (match loader_type {
                Some(t) => if old(self)@.phase == ScanPhase::Scanning {
                    old(self)@.pending.push((path@, t))
                } else {
                    old(self)@.pending
                },
                None => old(self)@.pending,
            }),
    {
        if self.phase != ScanPhase::Scanning {
            return;
        }
        match loader_type {
            Some(t) => {
                let ghost before = self.pending@;
                self.pending.push(InventoryEntry { path, type_tag: t });
                assert(entries_view(self.pending@) =~= entries_view(before).push((path@, t)));
            },
            None => {},
        }
    }

    /// Reports that the listing of the root failed. A running scan ends and
    /// publishes an empty inventory; otherwise nothing changes.
    pub fn listing_failed(&mut self)
        ensures
            old(self)@.phase == ScanPhase::Scanning ==> {
                &&& final(self)@.phase == ScanPhase::Published
                &&& final(self)@.pending == Seq::<(Seq<u8>, u64)>::empty()
                &&& final(self)@.published == Seq::<(Seq<u8>, u64)>::empty()
            },
            old(self)@.phase != ScanPhase::Scanning ==> final(self)@ == old(self)@,
    {
        if self.phase != ScanPhase::Scanning {
            return;
        }
        self.phase = ScanPhase::Published;
        self.pending = Vec::new();
        self.published = Vec::new();
        assert(self@.pending =~= Seq::<(Seq<u8>, u64)>::empty());
        assert(self@.published =~= Seq::<(Seq<u8>, u64)>::empty());
    }

    /// Reports the end of the listing. A running scan publishes the entries
    /// it kept, in listing order, in place of the earlier inventory;
    /// otherwise nothing changes.
    pub fn listing_finished(&mut self)
        ensures
            old(self)@.phase == ScanPhase::Scanning ==> {
                &&& final(self)@.phase == ScanPhase::Published
                &&& final(self)@.pending == Seq::<(Seq<u8>, u64)>::empty()
                &&& final(self)@.published == old(self)@.pending
            },
            old(self)@.phase != ScanPhase::Scanning ==> final(self)@ == old(self)@,
    {
        if self.phase != ScanPhase::Scanning {
            return;
        }
        self.phase = ScanPhase::Published;
        let mut gathered: Vec<InventoryEntry> = Vec::new();
        std::mem::swap(&mut self.pending, &mut gathered);
        self.published = gathered;
        assert(self@.pending =~= Seq::<(Seq<u8>, u64)>::empty());
    }

    /// The inventory of the last finished scan.
    pub fn inventory(&self) -> (r: &Vec<InventoryEntry>)
        ensures
            entries_view(r@) == self@.published,
            r@.len() == self@.published.len(),
    {
        &self.published
    }
}

} // verus!
