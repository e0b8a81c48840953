//! Laws of the registry: what is permanent wire format, identifier by identifier.

use vstd::prelude::*;

use crate::names::identifier_of;
use crate::parameter;
use crate::registry::{is_allocated, parameter_spec, spec, ParameterSpec};

verus! {

/// Identifiers are permanent wire format: none is ever reused or renumbered.
pub proof fn law_identifiers_are_permanent()
    ensures
        parameter::INTER_BLOCK_INTERVAL_MS == 1,
        parameter::GRACE_PERIOD_WINDOW_MS == 2,
        parameter::BLOCK_SIZE_LIMIT == 3,
        parameter::MAX_BLOCK_UTXO_OUTPUT == 4,
        parameter::MAX_AGGREGATED_SIGNATURES == 5,
        parameter::VOTE_SCALE == 6,
        parameter::VOTE_INTEREST == 7,
        parameter::PARENT_RECOVERY_PER_HEAD_RETRY_INTERVAL_MS == 8,
        parameter::PARENT_RECOVERY_MIN_EMIT_INTERVAL_MS == 9,
        parameter::REQUIRED_SUPPORT == 10,
        parameter::ECHO_REQUEST_MINIMAL_INTERVAL == 11,
        parameter::ECHO_MESSAGES_TARGET_INTERVAL == 12,
        parameter::ECHO_GATHERING_TIMEOUT == 13,
        parameter::DELAY_BETWEEN_TX_PACKETS == 14,
        parameter::DELAY_BETWEEN_TX_MESSAGES == 15,
        parameter::RELAY_POSITION_DELAY == 16,
        parameter::SCORING_MATRIX == 17,
        parameter::RETRY_INTERVAL_FOR_MISSING_PACKETS == 18,
        parameter::TX_MAXIMUM_RANDOM_DELAY == 19,
        parameter::BLOCK_FILL_THRESHOLD_PERCENT == 20,
        parameter::ACTIVE_CHAIN_LENGTH == 21,
        parameter::MEMPOOL_REPLENISHMENT_INTERVAL_MS == 22,
        parameter::CUSTODIAN_FEE == 23,
        parameter::REGISTRATION_PRICE == 24,
        parameter::TX_FEE_PER_BYTE_MIN == 25,
        parameter::TX_FEE_PER_BYTE_MAX == 26,
        parameter::DEVIATION_REPLAY_INSERTION_DELAY_MS == 27,
        parameter::REPLAY_BLOCK_REWARD == 28,
        parameter::VM_FUEL_LIMIT == 29,
{
}

/// The registry allocates the identifiers from 1 to 29 and no other, and gives the record of
/// each and of no other.
pub proof fn law_twenty_nine_identifiers_are_allocated(
    id: u8,
    allocated: bool,
    found: Option<ParameterSpec>,
    record: ParameterSpec,
)
    requires
        call_ensures(is_allocated, (id,), allocated),
        call_ensures(parameter_spec, (id,), found),
        1 <= id <= 29 ==> call_ensures(spec, (id,), record),
    ensures
        allocated == (1 <= id <= 29),
        ParameterSpec::allocates(id) == (1 <= id <= 29),
        found == if 1 <= id <= 29 {
            Some(record)
        } else {
            None
        },
        1 <= id <= 29 ==> record == ParameterSpec::registered(id) && record.id == id,
{
}

/// Every duration in milliseconds is four bytes wide and every amount is eight. The budget is
/// four, and the scoring matrix five. Counts, percentages and short delays have one byte, the
/// longer ones two.
pub proof fn law_widths_are_permanent(id: u8)
    requires
        1 <= id <= 29,
    ensures
        ParameterSpec::registered(id).width == if id == 23 || id == 24 || id == 25 || id == 26 || id == 28 {
            8u8
        } else if id == 17 {
            5u8
        } else if id == 1 || id == 2 || id == 8 || id == 9 || id == 22 || id == 27 || id == 29 {
            4u8
        } else if id == 3 || id == 6 || id == 11 || id == 14 || id == 19 || id == 21 {
            2u8
        } else {
            1u8
        },
{
}

/// Only the registration price takes an argument, and it takes one.
pub proof fn law_only_the_registration_price_takes_an_argument(id: u8)
    requires
        1 <= id <= 29,
    ensures
        ParameterSpec::registered(id).args == if id == 24 {
            1u8
        } else {
            0u8
        },
{
}

/// A program may override every parameter but those that have to be known when content is
/// accepted: the output and signature counts, the vote scale, the required support, the scoring
/// matrix, the chain length and the budget.
pub proof fn law_seven_parameters_are_literal_only(id: u8)
    requires
        1 <= id <= 29,
    ensures
        ParameterSpec::registered(id).bytecode_allowed == !(id == 4 || id == 5 || id == 6 || id == 10 || id == 17 || id == 21 || id == 29),
{
}

/// The defaults are permanent too: a chain that omits a parameter validates against them.
pub proof fn law_defaults_are_permanent()
    ensures
        ParameterSpec::registered(1).fallback == 60_000,
        ParameterSpec::registered(2).fallback == 30_000,
        ParameterSpec::registered(3).fallback == 2016,
        ParameterSpec::registered(4).fallback == 255,
        ParameterSpec::registered(5).fallback == 50,
        ParameterSpec::registered(6).fallback == 1000,
        ParameterSpec::registered(7).fallback == 5,
        ParameterSpec::registered(8).fallback == 120_000,
        ParameterSpec::registered(9).fallback == 10_000,
        ParameterSpec::registered(10).fallback == 3,
        ParameterSpec::registered(11).fallback == 1440,
        ParameterSpec::registered(12).fallback == 100,
        ParameterSpec::registered(13).fallback == 10,
        ParameterSpec::registered(14).fallback == 200,
        ParameterSpec::registered(15).fallback == 20,
        ParameterSpec::registered(16).fallback == 10,
        ParameterSpec::registered(17).fallback == 0x8F5241F3FF,
        ParameterSpec::registered(18).fallback == 60,
        ParameterSpec::registered(19).fallback == 200,
        ParameterSpec::registered(20).fallback == 80,
        ParameterSpec::registered(21).fallback == 500,
        ParameterSpec::registered(22).fallback == 500_000,
        ParameterSpec::registered(23).fallback == 1,
        ParameterSpec::registered(24).fallback == 100,
        ParameterSpec::registered(25).fallback == 0,
        ParameterSpec::registered(26).fallback == 1000,
        ParameterSpec::registered(27).fallback == 300_000,
        ParameterSpec::registered(28).fallback == 100,
        ParameterSpec::registered(29).fallback == 20_000,
{
}

/// The names are permanent in what configurations are written with: each stands for its
/// parameter.
pub proof fn law_names_are_permanent()
    ensures
        crate::names::name_of(1) == "inter_block_interval_ms"@,
        crate::names::name_of(2) == "grace_period_window_ms"@,
        crate::names::name_of(3) == "block_size_limit"@,
        crate::names::name_of(4) == "max_block_utxo_output"@,
        crate::names::name_of(5) == "max_aggregated_signatures"@,
        crate::names::name_of(6) == "vote_scale"@,
        crate::names::name_of(7) == "vote_interest"@,
        crate::names::name_of(8) == "parent_recovery_per_head_retry_interval_ms"@,
        crate::names::name_of(9) == "parent_recovery_min_emit_interval_ms"@,
        crate::names::name_of(10) == "required_support"@,
        crate::names::name_of(11) == "echo_request_minimal_interval"@,
        crate::names::name_of(12) == "echo_messages_target_interval"@,
        crate::names::name_of(13) == "echo_gathering_timeout"@,
        crate::names::name_of(14) == "delay_between_tx_packets"@,
        crate::names::name_of(15) == "delay_between_tx_messages"@,
        crate::names::name_of(16) == "relay_position_delay"@,
        crate::names::name_of(17) == "scoring_matrix"@,
        crate::names::name_of(18) == "retry_interval_for_missing_packets"@,
        crate::names::name_of(19) == "tx_maximum_random_delay"@,
        crate::names::name_of(20) == "block_fill_threshold_percent"@,
        crate::names::name_of(21) == "active_chain_length"@,
        crate::names::name_of(22) == "mempool_replenishment_interval_ms"@,
        crate::names::name_of(23) == "custodian_fee"@,
        crate::names::name_of(24) == "registration_price"@,
        crate::names::name_of(25) == "tx_fee_per_byte_min"@,
        crate::names::name_of(26) == "tx_fee_per_byte_max"@,
        crate::names::name_of(27) == "deviation_replay_insertion_delay_ms"@,
        crate::names::name_of(28) == "replay_block_reward"@,
        crate::names::name_of(29) == "vm_fuel_limit"@,
{
}

/// A name stands for an identifier exactly when it is the name of that identifier.
pub proof fn law_a_name_stands_for_its_parameter(name: &str, found: Option<u8>, id: u8)
    requires
        call_ensures(identifier_of, (name,), found),
    ensures
        found == crate::names::identifier_named(name@),
        1 <= id <= 29 ==> (found == Some(id) <==> name@ == crate::names::name_of(id)),
        !(1 <= id <= 29) ==> found != Some(id),
{
    crate::names::law_names_are_allocated(name@);
    if 1 <= id <= 29 {
        crate::names::law_names_match_the_registry(id, id);
    }
}

} // verus!
