//! Normalized streaming: events, the terminal contract, and accumulation.
//!
//! ## The terminal contract
//!
//! A stream guarantees:
//!
//! 1. The first event is `StreamStart`.
//! 2. Every `TextStart`/`ReasoningStart`/`ToolInputStart` is closed by its
//!    matching end event before the stream finishes, synthesized if the
//!    provider never sent one. Open provider-tool and compaction lifecycles
//!    similarly close with their completed part or an explicit abort event.
//! 3. Exactly one `Finish` is emitted, always last. A failed or truncated
//!    stream emits `Error` followed by a `Finish` with the reason `Error`, even
//!    if the provider claims a normal completion after the error.
//! 4. After `Finish`, the stream yields nothing more.
//! 5. Open tool blocks close with `ToolInputEnd` only. A `ToolCall` is emitted
//!    only after the provider authoritatively completes the call with valid
//!    JSON arguments.
use vstd::prelude::*;

pub mod accumulator;
pub mod action;
pub mod contract;
pub mod event;
pub mod normalizer;
pub mod replay;
pub mod texts;

verus! {

} // verus!
