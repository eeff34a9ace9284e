//! What the library promises, said of plain texts, numbers and outcomes.
use vstd::prelude::*;

pub mod albums;
pub mod browser;
pub mod clients;
pub mod downloads;
pub mod requests;
pub mod startup;
pub mod text;
pub mod tracks;

verus! {

} // verus!
