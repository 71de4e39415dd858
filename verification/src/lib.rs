//! One typed request model, stream contract and error taxonomy for calling
//! large language models through the APIs of several providers.
use vstd::prelude::*;

pub mod address;
pub mod auth;
pub mod capabilities;
pub mod error;
pub mod headers;
pub mod http_support;
pub mod ids;
pub mod json;
pub mod laws;
pub mod message;
pub mod metadata;
pub mod model;
pub mod protocols;
pub mod provider;
pub mod request;
pub mod response;
pub mod slots;
pub mod stream;
pub mod table;
pub mod text;
pub mod transport;
pub mod usage;
pub mod util;
pub mod wire;
pub mod xai;

verus! {

} // verus!
