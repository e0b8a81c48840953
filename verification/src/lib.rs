//! MoonBlokz chain configuration.
//!
//! A MoonBlokz chain must run with parameters that are identical on every node: where these
//! values diverge, validation outcomes diverge. This library owns that agreement. It accepts
//! the configuration content that chain-config blocks carry, holds the tentative or durable
//! commitment to it, resolves every parameter through a fixed registry of code-baked
//! defaults, and encodes a configuration that was written down as text.
//!
//! - [`ChainConfiguration`] is the module: one retained payload, one commitment, and a sink
//!   that is told of changes. [`ChainConfigTrait`] is the seam that a node is generic over.
//! - [`ActiveConfig`] is the accessor surface. It borrows the module, so it cannot be held
//!   across a change of state.
//! - [`accept_content`] is the acceptance pass: framing, registry conformance and the
//!   structural bounds, on the declared values, before anything is loaded.
//! - [`encode`] turns a written configuration into signed content.
//!
//! What the library does not do itself, it is handed. The walk over the envelope of a block
//! comes as a [`FramedPayload`]. Running a program, assembling one, and framing and signing
//! a list of overrides come as functions. What the block format and the build fix comes as a
//! [`Platform`].
//!
//! What holds of all of this is stated in the modules that are named after their laws.

pub mod acceptance;
pub mod acceptance_laws;
pub mod bytes;
pub mod configuration;
pub mod diagnostics;
pub mod encoder;
pub mod encoding_laws;
pub mod framing;
pub mod hex;
pub mod hex_laws;
pub mod laws;
pub mod literals;
pub mod names;
pub mod numbers;
pub mod parameter;
pub mod program_laws;
pub mod programs;
pub mod reading_laws;
pub mod registry;
pub mod registry_laws;
pub mod resolution;
pub mod statements;
pub mod text;
pub mod value_laws;
pub mod writing_laws;

pub use crate::acceptance::{accept_content, ChainConfigError, Platform};
pub use crate::configuration::{
    ChainConfigTrait, ChainConfiguration, ConfigChangeSink, NoopConfigChangeSink,
};
pub use crate::diagnostics::EncodeError;
pub use crate::encoder::{encode, Sealing};
pub use crate::framing::{ConfigValue, FramedPayload};
pub use crate::names::{identifier_of, NAMES};
pub use crate::registry::{
    parameter_spec, DefaultValue, ParameterSpec, PARAMETER_COUNT, SCORING_MATRIX_LEN,
    SNAKE_CHAIN_LENGTH_MAX, UTXO_UNSPENT_BITS, VM_FUEL_LIMIT_MAX,
};
pub use crate::resolution::{ActiveConfig, Budget, Commitment, ProgramOutcome};
pub use crate::statements::{Override, Value};
