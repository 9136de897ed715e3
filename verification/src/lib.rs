use vstd::prelude::*;

pub mod encoder;
pub mod error;
pub mod model;
pub mod repo;
pub mod sequence;
pub mod service;
pub mod types;
pub mod utils;

verus! {

/// Number of history entries shown on one page of a user's URL listing.
pub const PAGE_SIZE: isize = 25;

} // verus!
