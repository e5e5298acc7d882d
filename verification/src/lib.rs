use vstd::prelude::*;

pub mod display_config;
pub mod text;
pub mod search;
pub mod float_bits;
pub mod cli;

verus! {

} // verus!
