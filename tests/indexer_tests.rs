use inspector_preview::indexer::{AssetIndexer, ScanPhase};

fn paths(ix: &AssetIndexer) -> Vec<(Vec<u8>, u64)> {
    ix.inventory().iter().map(|e| (e.path.clone(), e.type_tag)).collect()
}

#[test]
fn failed_listing_publishes_empty_inventory() {
    let mut ix = AssetIndexer::new();
    assert_eq!(ix.phase(), ScanPhase::Idle);
    ix.start_scan();
    ix.listing_failed();
    assert_eq!(ix.phase(), ScanPhase::Published);
    assert_eq!(ix.inventory().len(), 0);
}

#[test]
fn failed_rescan_replaces_earlier_inventory() {
    let mut ix = AssetIndexer::new();
    ix.start_scan();
    ix.entry_found(b"a.png".to_vec(), Some(1));
    ix.listing_finished();
    assert_eq!(ix.inventory().len(), 1);
    ix.start_scan();
    ix.listing_failed();
    assert_eq!(ix.inventory().len(), 0);
}

#[test]
fn scan_keeps_entries_with_a_loader_in_order() {
    let mut ix = AssetIndexer::new();
    ix.start_scan();
    ix.entry_found(b"b/x.png".to_vec(), Some(1));
    ix.entry_found(b"notes.md".to_vec(), None);
    ix.entry_found(b"a/y.ron".to_vec(), Some(2));
    assert_eq!(ix.inventory().len(), 0);
    assert_eq!(ix.phase(), ScanPhase::Scanning);
    ix.listing_finished();
    assert_eq!(
        paths(&ix),
        vec![(b"b/x.png".to_vec(), 1), (b"a/y.ron".to_vec(), 2)]
    );
}

#[test]
fn rescan_publishes_only_at_the_end() {
    let mut ix = AssetIndexer::new();
    ix.start_scan();
    ix.entry_found(b"old.png".to_vec(), Some(1));
    ix.listing_finished();
    ix.start_scan();
    ix.entry_found(b"new.png".to_vec(), Some(1));
    assert_eq!(paths(&ix), vec![(b"old.png".to_vec(), 1)]);
    ix.listing_finished();
    assert_eq!(paths(&ix), vec![(b"new.png".to_vec(), 1)]);
}

#[test]
fn events_outside_a_scan_are_ignored() {
    let mut ix = AssetIndexer::new();
    ix.entry_found(b"stray.png".to_vec(), Some(1));
    ix.listing_finished();
    ix.listing_failed();
    assert_eq!(ix.phase(), ScanPhase::Idle);
    assert_eq!(ix.inventory().len(), 0);
}
