use vstd::prelude::*;

pub mod args;
pub mod commands;
pub mod envelope;
pub mod error;
pub mod generate;
pub mod primitives;
pub mod search;
pub mod seal;
pub mod store;
pub mod unlock;

verus! {

} // verus!
