use vstd::prelude::*;

pub mod generate;

verus! {

} // verus!
