//! Preview support for an asset inspector: a cache of downscaled derivative
//! images keyed by the original asset, the rescale step that produces them,
//! the state machine of an asset-directory scan, and the filter of the
//! asset picker built on the scan's inventory.

pub mod cache;
pub mod rescale;
pub mod indexer;
pub mod picker;
