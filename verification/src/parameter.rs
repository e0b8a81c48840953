//! Wire identifiers of the parameter registry.
//!
//! The identifiers are permanent wire format: once a chain exists, the meaning of
//! one cannot change. They are allocated densely from 1, never reused and never
//! renumbered, and the key space is shared by every consumer of the configuration.
//! The next free identifier is 30.
//!
//! Every duration that is counted in milliseconds is a `u32`.

use vstd::prelude::*;

verus! {

/// Wait between created blocks, milliseconds.
pub const INTER_BLOCK_INTERVAL_MS: u8 = 1;

/// Length of the grace-period window, milliseconds.
pub const GRACE_PERIOD_WINDOW_MS: u8 = 2;

/// Block-size limit, bytes.
pub const BLOCK_SIZE_LIMIT: u8 = 3;

/// Maximum UTXO outputs per block, bounded by `UTXO_UNSPENT_BITS`.
pub const MAX_BLOCK_UTXO_OUTPUT: u8 = 4;

/// Maximum aggregated signatures per approval-evidence block.
pub const MAX_AGGREGATED_SIGNATURES: u8 = 5;

/// Per-credit vote value, and the denominator of the anti-capture interest.
pub const VOTE_SCALE: u8 = 6;

/// Anti-capture vote-interest rate.
pub const VOTE_INTEREST: u8 = 7;

/// Per-head parent-recovery retry window, milliseconds.
pub const PARENT_RECOVERY_PER_HEAD_RETRY_INTERVAL_MS: u8 = 8;

/// Cooldown between parent-recovery emissions, milliseconds.
pub const PARENT_RECOVERY_MIN_EMIT_INTERVAL_MS: u8 = 9;

/// Required support count.
pub const REQUIRED_SUPPORT: u8 = 10;

/// Radio: minimum interval between echo requests, minutes.
pub const ECHO_REQUEST_MINIMAL_INTERVAL: u8 = 11;

/// Radio: target interval between echo messages, seconds.
pub const ECHO_MESSAGES_TARGET_INTERVAL: u8 = 12;

/// Radio: echo-gathering timeout, minutes.
pub const ECHO_GATHERING_TIMEOUT: u8 = 13;

/// Radio: delay between transmitted packets, milliseconds.
pub const DELAY_BETWEEN_TX_PACKETS: u8 = 14;

/// Radio: delay between transmitted messages, seconds.
pub const DELAY_BETWEEN_TX_MESSAGES: u8 = 15;

/// Radio: relay-position delay, seconds.
pub const RELAY_POSITION_DELAY: u8 = 16;

/// Radio: encoded connection-quality scoring matrix.
pub const SCORING_MATRIX: u8 = 17;

/// Radio: retry interval for missing packets, seconds.
pub const RETRY_INTERVAL_FOR_MISSING_PACKETS: u8 = 18;

/// Radio: maximum randomised transmit delay, milliseconds.
pub const TX_MAXIMUM_RANDOM_DELAY: u8 = 19;

/// Block fill threshold, percent.
pub const BLOCK_FILL_THRESHOLD_PERCENT: u8 = 20;

/// Active-chain window length, bounded by `SNAKE_CHAIN_LENGTH_MAX`.
pub const ACTIVE_CHAIN_LENGTH: u8 = 21;

/// Mempool replenishment interval, milliseconds.
pub const MEMPOOL_REPLENISHMENT_INTERVAL_MS: u8 = 22;

/// Carry-forward custodian fee.
pub const CUSTODIAN_FEE: u8 = 23;

/// Registration price; takes the registered-node count as its argument.
pub const REGISTRATION_PRICE: u8 = 24;

/// Minimum transaction fee per byte.
pub const TX_FEE_PER_BYTE_MIN: u8 = 25;

/// Maximum transaction fee per byte.
pub const TX_FEE_PER_BYTE_MAX: u8 = 26;

/// Deviation-replay insertion delay, milliseconds.
pub const DEVIATION_REPLAY_INSERTION_DELAY_MS: u8 = 27;

/// Replay-block reward.
pub const REPLAY_BLOCK_REWARD: u8 = 28;

/// Fuel budget of one program evaluation.
pub const VM_FUEL_LIMIT: u8 = 29;

} // verus!
