use vstd::prelude::*;

pub mod changelog;
pub mod gh;
pub mod hall_of_fame;
pub mod markup;
pub mod mention;
pub mod mention_laws;
pub mod ping;
pub mod ping_laws;
pub mod todo;

verus! {

/// How many fields fit on one page of a list.
pub const DISCORD_EMBED_FIELDS_LIMIT: u32 = 24;

} // verus!
