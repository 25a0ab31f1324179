//! Types shared with the HTTP surface.

use vstd::prelude::*;

verus! {

/// One page of a listing, together with how many pages the whole
/// collection spans at the page size the listing was made with.
pub struct Listing<T> {
    pub items: Vec<T>,
    pub pages: i64,
}

} // verus!
