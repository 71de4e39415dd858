//! Anthropic Messages API and the backends that serve it.
use vstd::prelude::*;

pub mod bedrock;
pub mod replay;
pub mod request;
pub mod stream;
pub mod types;

verus! {

/// Which backend serves the Messages API.
#[derive(Debug, Clone, Copy, PartialEq, Eq, Structural)]
pub enum AnthropicDialect {
    /// Anthropic's own API.
    Direct,
    /// Amazon Bedrock.
    Bedrock,
}

/// The header every request to Anthropic's own API declares.
pub const VERSION_HEADER: &'static str = "anthropic-version";

/// The value of [`VERSION_HEADER`].
pub const VERSION: &'static str = "2023-06-01";

/// The body field Bedrock requires in place of the `anthropic-version` header.
pub const ANTHROPIC_VERSION: &'static str = "bedrock-2023-05-31";

} // verus!
