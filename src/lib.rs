use vstd::prelude::*;

pub mod daemon;
pub mod display;
pub mod sunshine;

verus! {

} // verus!
