//! The parameter registry.
//!
//! For every parameter the registry records its literal width, its arity, the forms
//! an override may take, its code-baked default and the fallback literal behind that
//! default. The table is permanent: a chain that omits a parameter validates against
//! the default recorded here, so changing one default splits the network without an
//! error on either side.

use vstd::prelude::*;

use crate::parameter;

verus! {

/// Per-block UTXO spent-bit width of this build.
///
/// A chain that declares `max_block_utxo_output` above it cannot be represented by
/// the local cache.
pub const UTXO_UNSPENT_BITS: u16 = 256;

/// Active-chain capacity of this build.
///
/// The window length is chain configuration, and it has to fit inside this capacity.
pub const SNAKE_CHAIN_LENGTH_MAX: u16 = 500;

/// Length of the radio scoring matrix, the one array-typed parameter.
pub const SCORING_MATRIX_LEN: usize = 5;

/// The bytes 255, 243, 65, 82, 143 as one little-endian value.
pub const SCORING_MATRIX_DEFAULT: u64 = 0x8f_5241_f3ff;

/// Ceiling on the chain-declared `vm_fuel_limit`, equal to the default.
///
/// A chain may buy itself shorter evaluations, never longer ones.
pub const VM_FUEL_LIMIT_MAX: u32 = 20_000;

/// Number of identifiers that the registry allocates.
pub const PARAMETER_COUNT: usize = 29;

/// What a parameter's code-baked default is.
#[derive(Clone, Copy, Debug)]
pub enum DefaultValue {
    /// A plain constant.
    Literal(u64),
    /// A program, evaluated with its own fresh fuel budget.
    Program(&'static [u8]),
}

/// What the registry records about one parameter.
#[derive(Clone, Copy, Debug)]
pub struct ParameterSpec {
    /// Wire identifier.
    pub id: u8,
    /// Exact literal width in bytes.
    pub width: u8,
    /// Number of arguments that the parameter takes.
    pub args: u8,
    /// Whether a program may override the parameter.
    ///
    /// Literal-only parameters are those whose value has to be knowable when content
    /// is accepted.
    pub bytecode_allowed: bool,
    /// The second tier of resolution: the code-baked default.
    pub default: DefaultValue,
    /// The last tier of resolution: a constant.
    pub fallback: u64,
}

impl ParameterSpec {
    /// The record of a parameter whose default is a constant.
    pub open spec fn literal(
        id: u8,
        width: u8,
        args: u8,
        bytecode_allowed: bool,
        default: u64,
    ) -> ParameterSpec {
        ParameterSpec {
            id,
            width,
            args,
            bytecode_allowed,
            default: DefaultValue::Literal(default),
            fallback: default,
        }
    }

    /// The table: the record of an allocated identifier.
    pub open spec fn registered(id: u8) -> ParameterSpec
        recommends
            ParameterSpec::allocates(id),
    {
        match id {
            parameter::INTER_BLOCK_INTERVAL_MS => ParameterSpec::literal(id, 4, 0, true, 60_000),
            parameter::GRACE_PERIOD_WINDOW_MS => ParameterSpec::literal(id, 4, 0, true, 30_000),
            parameter::BLOCK_SIZE_LIMIT => ParameterSpec::literal(id, 2, 0, true, 2016),
            parameter::MAX_BLOCK_UTXO_OUTPUT => ParameterSpec::literal(id, 1, 0, false, 255),
            parameter::MAX_AGGREGATED_SIGNATURES => ParameterSpec::literal(id, 1, 0, false, 50),
            parameter::VOTE_SCALE => ParameterSpec::literal(id, 2, 0, false, 1000),
            parameter::VOTE_INTEREST => ParameterSpec::literal(id, 1, 0, true, 5),
            parameter::PARENT_RECOVERY_PER_HEAD_RETRY_INTERVAL_MS => ParameterSpec::literal(id, 4, 0, true, 120_000),
            parameter::PARENT_RECOVERY_MIN_EMIT_INTERVAL_MS => ParameterSpec::literal(id, 4, 0, true, 10_000),
            parameter::REQUIRED_SUPPORT => ParameterSpec::literal(id, 1, 0, false, 3),
            parameter::ECHO_REQUEST_MINIMAL_INTERVAL => ParameterSpec::literal(id, 2, 0, true, 1440),
            parameter::ECHO_MESSAGES_TARGET_INTERVAL => ParameterSpec::literal(id, 1, 0, true, 100),
            parameter::ECHO_GATHERING_TIMEOUT => ParameterSpec::literal(id, 1, 0, true, 10),
            parameter::DELAY_BETWEEN_TX_PACKETS => ParameterSpec::literal(id, 2, 0, true, 200),
            parameter::DELAY_BETWEEN_TX_MESSAGES => ParameterSpec::literal(id, 1, 0, true, 20),
            parameter::RELAY_POSITION_DELAY => ParameterSpec::literal(id, 1, 0, true, 10),
            parameter::SCORING_MATRIX => ParameterSpec::literal(id, 5, 0, false, SCORING_MATRIX_DEFAULT),
            parameter::RETRY_INTERVAL_FOR_MISSING_PACKETS => ParameterSpec::literal(id, 1, 0, true, 60),
            parameter::TX_MAXIMUM_RANDOM_DELAY => ParameterSpec::literal(id, 2, 0, true, 200),
            parameter::BLOCK_FILL_THRESHOLD_PERCENT => ParameterSpec::literal(id, 1, 0, true, 80),
            parameter::ACTIVE_CHAIN_LENGTH => ParameterSpec::literal(id, 2, 0, false, 500),
            parameter::MEMPOOL_REPLENISHMENT_INTERVAL_MS => ParameterSpec::literal(id, 4, 0, true, 500_000),
            parameter::CUSTODIAN_FEE => ParameterSpec::literal(id, 8, 0, true, 1),
            parameter::REGISTRATION_PRICE => ParameterSpec::literal(id, 8, 1, true, 100),
            parameter::TX_FEE_PER_BYTE_MIN => ParameterSpec::literal(id, 8, 0, true, 0),
            parameter::TX_FEE_PER_BYTE_MAX => ParameterSpec::literal(id, 8, 0, true, 1000),
            parameter::DEVIATION_REPLAY_INSERTION_DELAY_MS => ParameterSpec::literal(id, 4, 0, true, 300_000),
            parameter::REPLAY_BLOCK_REWARD => ParameterSpec::literal(id, 8, 0, true, 100),
            _ => ParameterSpec::literal(id, 4, 0, false, 20_000),
        }
    }

    /// Whether the registry allocates `id`.
    pub open spec fn allocates(id: u8) -> bool {
        1 <= id <= PARAMETER_COUNT
    }

    /// Whether a structural bound is laid on the values of `id`.
    pub open spec fn is_bounded(id: u8) -> bool {
        ||| id == parameter::BLOCK_SIZE_LIMIT
        ||| id == parameter::MAX_BLOCK_UTXO_OUTPUT
        ||| id == parameter::MAX_AGGREGATED_SIGNATURES
        ||| id == parameter::VOTE_SCALE
        ||| id == parameter::REQUIRED_SUPPORT
        ||| id == parameter::BLOCK_FILL_THRESHOLD_PERCENT
        ||| id == parameter::ACTIVE_CHAIN_LENGTH
        ||| id == parameter::TX_FEE_PER_BYTE_MIN
        ||| id == parameter::TX_FEE_PER_BYTE_MAX
        ||| id == parameter::VM_FUEL_LIMIT
    }

    /// Whether the bound on `id` is a capacity of this build rather than the same
    /// number everywhere.
    pub open spec fn is_limited_per_build(id: u8) -> bool {
        ||| id == parameter::MAX_BLOCK_UTXO_OUTPUT
        ||| id == parameter::MAX_AGGREGATED_SIGNATURES
        ||| id == parameter::REQUIRED_SUPPORT
        ||| id == parameter::ACTIVE_CHAIN_LENGTH
    }
}

/// A record whose default is a literal: both code-baked tiers are that one value.
pub fn spec_of(
    id: u8,
    width: u8,
    args: u8,
    bytecode_allowed: bool,
    default: u64,
) -> (record: ParameterSpec)
    ensures
        record == ParameterSpec::literal(id, width, args, bytecode_allowed, default),
{
    ParameterSpec {
        id,
        width,
        args,
        bytecode_allowed,
        default: DefaultValue::Literal(default),
        fallback: default,
    }
}

/// A record whose default is a program, with the fallback literal behind it.
///
/// No registered parameter has such a default today.
pub fn spec_of_program(
    id: u8,
    width: u8,
    args: u8,
    bytecode_allowed: bool,
    default: &'static [u8],
    fallback: u64,
) -> (record: ParameterSpec)
    ensures
        record == (ParameterSpec {
            id,
            width,
            args,
            bytecode_allowed,
            default: DefaultValue::Program(default),
            fallback,
        }),
{
    ParameterSpec {
        id,
        width,
        args,
        bytecode_allowed,
        default: DefaultValue::Program(default),
        fallback,
    }
}

/// Whether the registry allocates `id`.
///
/// An identifier that is not allocated is rejected, never skipped: a node that put
/// its own default in place of a parameter it does not know would validate against
/// other values than the rest of the network.
pub fn is_allocated(id: u8) -> (allocated: bool)
    ensures
        allocated == ParameterSpec::allocates(id),
{
    id >= 1 && id <= 29
}

/// The record of an allocated identifier.
pub fn spec(id: u8) -> (record: ParameterSpec)
    requires
        ParameterSpec::allocates(id),
    ensures
        record == ParameterSpec::registered(id),
{
    match id {
        parameter::INTER_BLOCK_INTERVAL_MS => spec_of(id, 4, 0, true, 60_000),
        parameter::GRACE_PERIOD_WINDOW_MS => spec_of(id, 4, 0, true, 30_000),
        parameter::BLOCK_SIZE_LIMIT => spec_of(id, 2, 0, true, 2016),
        parameter::MAX_BLOCK_UTXO_OUTPUT => spec_of(id, 1, 0, false, 255),
        parameter::MAX_AGGREGATED_SIGNATURES => spec_of(id, 1, 0, false, 50),
        parameter::VOTE_SCALE => spec_of(id, 2, 0, false, 1000),
        parameter::VOTE_INTEREST => spec_of(id, 1, 0, true, 5),
        parameter::PARENT_RECOVERY_PER_HEAD_RETRY_INTERVAL_MS => spec_of(id, 4, 0, true, 120_000),
        parameter::PARENT_RECOVERY_MIN_EMIT_INTERVAL_MS => spec_of(id, 4, 0, true, 10_000),
        parameter::REQUIRED_SUPPORT => spec_of(id, 1, 0, false, 3),
        parameter::ECHO_REQUEST_MINIMAL_INTERVAL => spec_of(id, 2, 0, true, 1440),
        parameter::ECHO_MESSAGES_TARGET_INTERVAL => spec_of(id, 1, 0, true, 100),
        parameter::ECHO_GATHERING_TIMEOUT => spec_of(id, 1, 0, true, 10),
        parameter::DELAY_BETWEEN_TX_PACKETS => spec_of(id, 2, 0, true, 200),
        parameter::DELAY_BETWEEN_TX_MESSAGES => spec_of(id, 1, 0, true, 20),
        parameter::RELAY_POSITION_DELAY => spec_of(id, 1, 0, true, 10),
        parameter::SCORING_MATRIX => spec_of(id, 5, 0, false, SCORING_MATRIX_DEFAULT),
        parameter::RETRY_INTERVAL_FOR_MISSING_PACKETS => spec_of(id, 1, 0, true, 60),
        parameter::TX_MAXIMUM_RANDOM_DELAY => spec_of(id, 2, 0, true, 200),
        parameter::BLOCK_FILL_THRESHOLD_PERCENT => spec_of(id, 1, 0, true, 80),
        parameter::ACTIVE_CHAIN_LENGTH => spec_of(id, 2, 0, false, 500),
        parameter::MEMPOOL_REPLENISHMENT_INTERVAL_MS => spec_of(id, 4, 0, true, 500_000),
        parameter::CUSTODIAN_FEE => spec_of(id, 8, 0, true, 1),
        parameter::REGISTRATION_PRICE => spec_of(id, 8, 1, true, 100),
        parameter::TX_FEE_PER_BYTE_MIN => spec_of(id, 8, 0, true, 0),
        parameter::TX_FEE_PER_BYTE_MAX => spec_of(id, 8, 0, true, 1000),
        parameter::DEVIATION_REPLAY_INSERTION_DELAY_MS => spec_of(id, 4, 0, true, 300_000),
        parameter::REPLAY_BLOCK_REWARD => spec_of(id, 8, 0, true, 100),
        _ => spec_of(id, 4, 0, false, 20_000),
    }
}

/// The record of `id`, or `None` if the registry does not allocate it.
pub fn parameter_spec(id: u8) -> (record: Option<ParameterSpec>)
    ensures
        record == if ParameterSpec::allocates(id) {
            Some(ParameterSpec::registered(id))
        } else {
            None
        },
{
    if is_allocated(id) {
        Some(spec(id))
    } else {
        None
    }
}

/// Identifiers are dense from 1, every value fits a `u64`, and every default is a
/// literal that the fallback repeats.
pub proof fn law_registry_is_dense(id: u8)
    requires
        ParameterSpec::allocates(id),
    ensures
        ParameterSpec::registered(id).id == id,
        1 <= ParameterSpec::registered(id).width <= 8,
        ParameterSpec::registered(id).default == DefaultValue::Literal(
            ParameterSpec::registered(id).fallback,
        ),
{
}

/// Every code-baked value fits the width that a literal override of it would have.
pub proof fn law_defaults_fit_their_width(id: u8)
    requires
        ParameterSpec::allocates(id),
    ensures
        ParameterSpec::registered(id).fallback < crate::bytes::pow256(
            ParameterSpec::registered(id).width as nat,
        ),
{
    crate::bytes::lemma_pow256_bounds();
}

/// A bounded parameter takes no argument: its bound can only be enforced on a value
/// that is knowable without one.
pub proof fn law_bounded_parameters_take_no_argument(id: u8)
    requires
        ParameterSpec::is_bounded(id),
    ensures
        ParameterSpec::allocates(id),
        ParameterSpec::registered(id).args == 0,
{
}

/// A parameter whose bound is a capacity of this build is literal-only, so the bound
/// decides at acceptance, where the answer is rejection and not another value.
pub proof fn law_per_build_limits_are_literal_only(id: u8)
    requires
        ParameterSpec::is_limited_per_build(id),
    ensures
        ParameterSpec::is_bounded(id),
        !ParameterSpec::registered(id).bytecode_allowed,
{
}

/// The execution budget is a literal, never a program, and its default is its own
/// ceiling.
pub proof fn law_fuel_limit_is_a_literal()
    ensures
        !ParameterSpec::registered(parameter::VM_FUEL_LIMIT).bytecode_allowed,
        ParameterSpec::registered(parameter::VM_FUEL_LIMIT).default == DefaultValue::Literal(
            VM_FUEL_LIMIT_MAX as u64,
        ),
        ParameterSpec::registered(parameter::VM_FUEL_LIMIT).fallback == VM_FUEL_LIMIT_MAX,
{
}

} // verus!
