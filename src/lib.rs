use vstd::prelude::*;

pub mod client;
pub mod codec;
pub mod combat;
pub mod data;
pub mod quest_data;
pub mod quest;
pub mod registry;

verus! {

} // verus!
