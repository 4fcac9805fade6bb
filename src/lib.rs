use vstd::prelude::*;

pub mod layout;
pub mod state;
pub mod bitmask;
pub mod slots;
pub mod template;
pub mod initialize;

verus! {

} // verus!
