//! Building blocks for integrating several external providers behind one
//! interface: capability descriptions, a uniform error type, paginated
//! batches of items and a registry that selects providers by identifier.

pub mod batch;
pub mod capabilities;
pub mod error;
pub mod registry;
pub mod text;

pub use batch::ProviderBatch;
pub use capabilities::ProviderCapabilities;
pub use error::ProviderError;
pub use registry::ProviderRegistry;

use vstd::prelude::*;

verus! {

/// Result type for provider operations.
pub type Result<T> = core::result::Result<T, ProviderError>;

} // verus!
