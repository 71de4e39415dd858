//! The OpenAI APIs and those that speak their formats.
use vstd::prelude::*;

pub mod chat;
pub mod responses;
pub mod shared;

verus! {

} // verus!
