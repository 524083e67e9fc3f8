//! The configuration of a run.

use vstd::prelude::*;

verus! {

/// Where the wishlist page is fetched from when no local file is given.
#[derive(Clone, Debug, PartialEq, Eq)]
pub struct WishlistConfig {
    pub url: String,
}

impl Default for WishlistConfig {
    /// The configuration before anything was set: an empty address.
    fn default() -> (config: Self)
        ensures
            config.url@ == Seq::<char>::empty(),
    {
        Self { url: String::new() }
    }
}

} // verus!
