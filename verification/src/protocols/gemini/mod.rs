//! Gemini GenerateContent (`generativelanguage.googleapis.com`, v1beta).
use vstd::prelude::*;

pub mod replay;
pub mod request;
pub mod stream;
pub mod types;

verus! {

/// Where a thought signature stands in the `gemini` extras of a part.
pub const SIGNATURE_KEY: &'static str = "thought_signature";

} // verus!
