use vstd::prelude::*;

pub mod account;
pub mod amount;
pub mod engine;
pub mod lemmas;
pub mod parser;
pub mod transaction;

verus! {

} // verus!
