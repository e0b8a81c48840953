//! Parameter names.
//!
//! Names are a convenience for those who write a configuration down. The registry knows
//! identifiers only.

use vstd::prelude::*;

use crate::parameter;
use crate::registry::{ParameterSpec, PARAMETER_COUNT};

verus! {

/// Every parameter name with the identifier it stands for, in identifier order.
pub const NAMES: [(&'static str, u8); 29] = [
    ("inter_block_interval_ms", parameter::INTER_BLOCK_INTERVAL_MS),
    ("grace_period_window_ms", parameter::GRACE_PERIOD_WINDOW_MS),
    ("block_size_limit", parameter::BLOCK_SIZE_LIMIT),
    ("max_block_utxo_output", parameter::MAX_BLOCK_UTXO_OUTPUT),
    ("max_aggregated_signatures", parameter::MAX_AGGREGATED_SIGNATURES),
    ("vote_scale", parameter::VOTE_SCALE),
    ("vote_interest", parameter::VOTE_INTEREST),
    ("parent_recovery_per_head_retry_interval_ms", parameter::PARENT_RECOVERY_PER_HEAD_RETRY_INTERVAL_MS),
    ("parent_recovery_min_emit_interval_ms", parameter::PARENT_RECOVERY_MIN_EMIT_INTERVAL_MS),
    ("required_support", parameter::REQUIRED_SUPPORT),
    ("echo_request_minimal_interval", parameter::ECHO_REQUEST_MINIMAL_INTERVAL),
    ("echo_messages_target_interval", parameter::ECHO_MESSAGES_TARGET_INTERVAL),
    ("echo_gathering_timeout", parameter::ECHO_GATHERING_TIMEOUT),
    ("delay_between_tx_packets", parameter::DELAY_BETWEEN_TX_PACKETS),
    ("delay_between_tx_messages", parameter::DELAY_BETWEEN_TX_MESSAGES),
    ("relay_position_delay", parameter::RELAY_POSITION_DELAY),
    ("scoring_matrix", parameter::SCORING_MATRIX),
    ("retry_interval_for_missing_packets", parameter::RETRY_INTERVAL_FOR_MISSING_PACKETS),
    ("tx_maximum_random_delay", parameter::TX_MAXIMUM_RANDOM_DELAY),
    ("block_fill_threshold_percent", parameter::BLOCK_FILL_THRESHOLD_PERCENT),
    ("active_chain_length", parameter::ACTIVE_CHAIN_LENGTH),
    ("mempool_replenishment_interval_ms", parameter::MEMPOOL_REPLENISHMENT_INTERVAL_MS),
    ("custodian_fee", parameter::CUSTODIAN_FEE),
    ("registration_price", parameter::REGISTRATION_PRICE),
    ("tx_fee_per_byte_min", parameter::TX_FEE_PER_BYTE_MIN),
    ("tx_fee_per_byte_max", parameter::TX_FEE_PER_BYTE_MAX),
    ("deviation_replay_insertion_delay_ms", parameter::DEVIATION_REPLAY_INSERTION_DELAY_MS),
    ("replay_block_reward", parameter::REPLAY_BLOCK_REWARD),
    ("vm_fuel_limit", parameter::VM_FUEL_LIMIT),
];

/// The name of an allocated identifier.
pub open spec fn name_of(id: u8) -> Seq<char> {
    NAMES@[id - 1].0@
}

/// The identifier that the names from position `from` on give to `name`.
pub open spec fn identifier_from(name: Seq<char>, from: int) -> Option<u8>
    decreases PARAMETER_COUNT - from,
{
    if from >= PARAMETER_COUNT {
        None
    } else if NAMES@[from].0@ == name {
        Some(NAMES@[from].1)
    } else {
        identifier_from(name, from + 1)
    }
}

/// The identifier that `name` stands for.
pub open spec fn identifier_named(name: Seq<char>) -> Option<u8> {
    identifier_from(name, 0)
}

/// The identifier that a name stands for.
pub fn identifier_of(name: &str) -> (id: Option<u8>)
    ensures
        id == identifier_named(name@),
        id matches Some(id) ==> ParameterSpec::allocates(id) && name@ == name_of(id),
        id is None ==> forall|id: u8| ParameterSpec::allocates(id) ==> name@ != name_of(id),
{
    let chars: Vec<char> = crate::text::characters(name);
    let id: Option<u8> = find_identifier(chars.as_slice());
    proof {
        lemma_identifier_from(name@, 0);
    }
    id
}

/// The identifier that a name stands for.
pub fn find_identifier(name: &[char]) -> (id: Option<u8>)
    ensures
        id == identifier_named(name@),
{
    let mut i: usize = 0;
    while i < 29
        invariant
            i <= 29,
            identifier_named(name@) == identifier_from(name@, i as int),
        decreases 29 - i,
    {
        let candidate: Vec<char> = crate::text::characters(NAMES[i].0);
        if crate::text::same(candidate.as_slice(), name) {
            return Some(NAMES[i].1);
        }
        i = i + 1;
    }
    None
}

/// The table lists identifiers in order.
pub proof fn lemma_names_in_order(i: int)
    requires
        0 <= i < PARAMETER_COUNT,
    ensures
        NAMES@[i].1 == i + 1,
{
}

/// What a search comes to: an allocated identifier with that name, or none has it.
pub proof fn lemma_identifier_from(name: Seq<char>, from: int)
    requires
        0 <= from <= PARAMETER_COUNT,
    ensures
        match identifier_from(name, from) {
            Some(id) => from < id <= PARAMETER_COUNT && name == name_of(id),
            None => forall|id: u8| from < id <= PARAMETER_COUNT ==> name != #[trigger] name_of(id),
        },
    decreases PARAMETER_COUNT - from,
{
    if from < PARAMETER_COUNT {
        lemma_names_in_order(from);
        lemma_identifier_from(name, from + 1);
    }
}

/// What tells the names apart: their length and a few of their characters.
spec fn mark(name: Seq<char>) -> (nat, char, char, char) {
    (name.len(), name[1], name[5], name.last())
}

proof fn lemma_marks_differ(one: u8, other: u8)
    requires
        ParameterSpec::allocates(one),
        ParameterSpec::allocates(other),
        one != other,
    ensures
        mark(name_of(one)) != mark(name_of(other)),
{
    reveal_strlit("inter_block_interval_ms");
    reveal_strlit("grace_period_window_ms");
    reveal_strlit("block_size_limit");
    reveal_strlit("max_block_utxo_output");
    reveal_strlit("max_aggregated_signatures");
    reveal_strlit("vote_scale");
    reveal_strlit("vote_interest");
    reveal_strlit("parent_recovery_per_head_retry_interval_ms");
    reveal_strlit("parent_recovery_min_emit_interval_ms");
    reveal_strlit("required_support");
    reveal_strlit("echo_request_minimal_interval");
    reveal_strlit("echo_messages_target_interval");
    reveal_strlit("echo_gathering_timeout");
    reveal_strlit("delay_between_tx_packets");
    reveal_strlit("delay_between_tx_messages");
    reveal_strlit("relay_position_delay");
    reveal_strlit("scoring_matrix");
    reveal_strlit("retry_interval_for_missing_packets");
    reveal_strlit("tx_maximum_random_delay");
    reveal_strlit("block_fill_threshold_percent");
    reveal_strlit("active_chain_length");
    reveal_strlit("mempool_replenishment_interval_ms");
    reveal_strlit("custodian_fee");
    reveal_strlit("registration_price");
    reveal_strlit("tx_fee_per_byte_min");
    reveal_strlit("tx_fee_per_byte_max");
    reveal_strlit("deviation_replay_insertion_delay_ms");
    reveal_strlit("replay_block_reward");
    reveal_strlit("vm_fuel_limit");
}

/// Names and identifiers stand for each other: every allocated identifier has a name,
/// no other identifier has one, and no two share one.
pub proof fn law_names_match_the_registry(id: u8, other: u8)
    requires
        ParameterSpec::allocates(id),
    ensures
        identifier_named(name_of(id)) == Some(id),
        ParameterSpec::allocates(other) && name_of(id) == name_of(other) ==> id == other,
{
    lemma_identifier_from(name_of(id), 0);
    match identifier_named(name_of(id)) {
        Some(found) => {
            if found != id {
                lemma_marks_differ(found, id);
            }
        },
        None => {},
    }
    if ParameterSpec::allocates(other) && other != id {
        lemma_marks_differ(id, other);
    }
}

/// A name never stands for an identifier that the registry does not allocate.
pub proof fn law_names_are_allocated(name: Seq<char>)
    ensures
        identifier_named(name) matches Some(id) ==> ParameterSpec::allocates(id),
{
    lemma_identifier_from(name, 0);
}

} // verus!
