//! The bundled environment catalog.

use vstd::prelude::*;

use crate::protocol::ids::CatalogEntryId;
use crate::text::str_eq;

verus! {

/// ID of the only bundled entry: an empty 10 × 10 grid.
pub const EMPTY_GRID_10X10: &'static str = "empty-grid-10x10";

/// What a catalog entry builds.
#[derive(Debug, Clone, Copy, PartialEq, Eq, Structural)]
pub struct CatalogEntry {
    pub width: u32,
    pub height: u32,
}

/// The catalog: `empty-grid-10x10` is an empty grid 10 cells wide and 10 cells high, and
/// there is no other entry.
pub open spec fn catalog(id: Seq<char>) -> Option<CatalogEntry> {
    if id == "empty-grid-10x10"@ {
        Some(CatalogEntry { width: 10, height: 10 })
    } else {
        None
    }
}

/// Look up a catalog entry by ID.
pub fn lookup(id: &CatalogEntryId) -> (entry: Option<CatalogEntry>)
    ensures
        entry == catalog(id@),
{
    if str_eq(id.as_str(), "empty-grid-10x10") {
        Some(CatalogEntry { width: 10, height: 10 })
    } else {
        None
    }
}

} // verus!
