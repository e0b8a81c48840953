//! The chain-configuration module: defaults, resolution, acceptance, commitment.
//!
//! Programs run on a small stack machine that stands in for the virtual machine of a node.

use std::cell::{Cell, RefCell};

use moonblokz_configuration::acceptance::check_bound;
use moonblokz_configuration::registry::{spec, spec_of_program, PARAMETER_COUNT};
use moonblokz_configuration::{
    accept_content, parameter, ActiveConfig, Budget, ChainConfigError, ChainConfigTrait,
    ChainConfiguration, Commitment, ConfigChangeSink, ConfigValue, DefaultValue, FramedPayload,
    NoopConfigChangeSink, Platform, ProgramOutcome, SNAKE_CHAIN_LENGTH_MAX, UTXO_UNSPENT_BITS,
    VM_FUEL_LIMIT_MAX,
};

// The build.

const MAX_PAYLOAD_SIZE: usize = 1900;
const HEADER_SIZE: usize = 116;
const MAX_BLOCK_SIZE: usize = 2016;
const MAX_AGGREGATED_SIGNATURES: usize = 100;
const SIGNATURE_SIZE: usize = 64;
const CONFIG_KEY_BYTECODE_FLAG: u8 = 0x80;
const HOST_RESOLVE_PARAMETER: u16 = 1;

const PLATFORM: Platform = Platform {
    max_payload_size: MAX_PAYLOAD_SIZE,
    header_size: HEADER_SIZE as u64,
    max_block_size: MAX_BLOCK_SIZE as u64,
    max_aggregated_signatures: MAX_AGGREGATED_SIGNATURES as u64,
    resolve_parameter: HOST_RESOLVE_PARAMETER,
};

// Payloads.

struct Payload {
    bytes: Vec<u8>,
}

impl Payload {
    fn as_slice(&self) -> &[u8] {
        &self.bytes
    }
}

enum Entry<'a> {
    Literal(u8, &'a [u8]),
    Bytecode(u8, &'a [u8]),
}

/// Frames a declared count and a raw entry body, with a blank signature behind them.
fn frame_raw(count: u16, body: &[u8]) -> Payload {
    let mut bytes = count.to_le_bytes().to_vec();
    bytes.extend_from_slice(body);
    bytes.extend_from_slice(&[0u8; SIGNATURE_SIZE]);
    Payload { bytes }
}

fn frame(entries: &[Entry<'_>]) -> Payload {
    let mut body = Vec::new();
    for entry in entries {
        let (key, value) = match entry {
            Entry::Literal(id, value) => (*id, value),
            Entry::Bytecode(id, program) => (*id | CONFIG_KEY_BYTECODE_FLAG, program),
        };
        body.push(key);
        body.push(value.len() as u8);
        body.extend_from_slice(value);
    }
    frame_raw(entries.len() as u16, &body)
}

/// The envelope walk.
fn walk(payload: &[u8]) -> Option<FramedPayload> {
    let content_len = payload.len().checked_sub(SIGNATURE_SIZE)?;
    let content = &payload[..content_len];
    let count = u16::from_le_bytes([*content.first()?, *content.get(1)?]);
    let mut entries = Vec::new();
    let mut at = 2;
    for _ in 0..count {
        let key_byte = *content.get(at)?;
        let len = *content.get(at + 1)? as usize;
        let value = content.get(at + 2..at + 2 + len)?.to_vec();
        entries.push(ConfigValue {
            key_byte,
            parameter_id: key_byte & !CONFIG_KEY_BYTECODE_FLAG,
            bytecode: key_byte & CONFIG_KEY_BYTECODE_FLAG != 0,
            value,
        });
        at += 2 + len;
    }
    FramedPayload::new(payload.to_vec(), content_len, entries)
}

fn accept(payload: &Payload) -> Result<usize, ChainConfigError> {
    accept_content(walk(payload.as_slice()).as_ref(), &PLATFORM)
}

fn loaded(entries: &[Entry<'_>]) -> ChainConfiguration<NoopConfigChangeSink> {
    let payload = frame(entries);
    let mut module = ChainConfiguration::new(NoopConfigChangeSink, PLATFORM);
    module
        .load_tentative(walk(payload.as_slice()))
        .expect("fixture content should be accepted");
    module
}

// The machine.

const OP_RET: u8 = 1;
const OP_PUSH_U8: u8 = 2;
const OP_PUSH_U16: u8 = 3;
const OP_ARG: u8 = 4;
const OP_ADD: u8 = 5;
const OP_MUL: u8 = 6;
const OP_DIV: u8 = 7;
const OP_GETPARAM: u8 = 8;
const OP_JMP: u8 = 9;

const MAX_NESTING: u32 = 3;

struct Fuel {
    left: u32,
    depth: u32,
}

/// Runs a program on the budget that it was given.
fn run_on(
    config: &ActiveConfig<'_>,
    fuel: &RefCell<Fuel>,
    program: &[u8],
    args: &[u64],
    budget: Budget,
) -> ProgramOutcome {
    match budget {
        Budget::Fresh(units) => {
            let fresh = RefCell::new(Fuel {
                left: units,
                depth: 0,
            });
            enter(config, &fresh, program, args)
        }
        Budget::Inherited => enter(config, fuel, program, args),
    }
}

fn enter(
    config: &ActiveConfig<'_>,
    fuel: &RefCell<Fuel>,
    program: &[u8],
    args: &[u64],
) -> ProgramOutcome {
    if fuel.borrow().depth == MAX_NESTING {
        return ProgramOutcome::Trapped;
    }
    fuel.borrow_mut().depth += 1;
    let outcome = match execute(config, fuel, program, args) {
        Some(outcome) => outcome,
        None => ProgramOutcome::Trapped,
    };
    fuel.borrow_mut().depth -= 1;
    outcome
}

/// `None` is a trap.
fn execute(
    config: &ActiveConfig<'_>,
    fuel: &RefCell<Fuel>,
    program: &[u8],
    args: &[u64],
) -> Option<ProgramOutcome> {
    let mut stack: Vec<u64> = Vec::new();
    let mut at: usize = 0;
    loop {
        if fuel.borrow().left == 0 {
            return Some(ProgramOutcome::OutOfFuel);
        }
        fuel.borrow_mut().left -= 1;
        match *program.get(at)? {
            OP_RET => return Some(ProgramOutcome::Completed(stack.pop()?)),
            OP_PUSH_U8 => {
                stack.push(*program.get(at + 1)? as u64);
                at += 2;
            }
            OP_PUSH_U16 => {
                let value = u16::from_le_bytes([*program.get(at + 1)?, *program.get(at + 2)?]);
                stack.push(value as u64);
                at += 3;
            }
            OP_ARG => {
                stack.push(*args.get(*program.get(at + 1)? as usize)?);
                at += 2;
            }
            OP_ADD => {
                let right = stack.pop()?;
                let left = stack.pop()?;
                stack.push(left.saturating_add(right));
                at += 1;
            }
            OP_MUL => {
                let right = stack.pop()?;
                let left = stack.pop()?;
                stack.push(left.saturating_mul(right));
                at += 1;
            }
            OP_DIV => {
                let right = stack.pop()?;
                let left = stack.pop()?;
                stack.push(left.checked_div(right)?);
                at += 1;
            }
            OP_GETPARAM => {
                let selector = *program.get(at + 1)?;
                let argc = *program.get(at + 2)? as usize;
                let handed = stack.split_off(stack.len().checked_sub(argc)?);
                let nested = |program: &[u8], args: &[u64], budget: Budget| {
                    run_on(config, fuel, program, args, budget)
                };
                let value = config.call(HOST_RESOLVE_PARAMETER, selector, &handed, &nested);
                if fuel.borrow().left == 0 {
                    return Some(ProgramOutcome::OutOfFuel);
                }
                stack.push(value?);
                at += 3;
            }
            OP_JMP => {
                let offset = i16::from_le_bytes([*program.get(at + 1)?, *program.get(at + 2)?]);
                at = (at as i64 + 3 + offset as i64) as usize;
            }
            _ => return None,
        }
    }
}

fn machine<'a>(
    config: &'a ActiveConfig<'a>,
) -> impl Fn(&[u8], &[u64], Budget) -> ProgramOutcome + 'a {
    let idle = RefCell::new(Fuel { left: 0, depth: 0 });
    move |program: &[u8], args: &[u64], budget: Budget| {
        run_on(config, &idle, program, args, budget)
    }
}

fn vote_interest<Sink: ConfigChangeSink>(module: &ChainConfiguration<Sink>) -> u8 {
    let config = module.active_configuration().expect("handle");
    let run = machine(&config);
    config.vote_interest(&run)
}

// Programs.

fn push_u8_program(value: u8) -> [u8; 3] {
    [OP_PUSH_U8, value, OP_RET]
}

fn push_u16_program(value: u16) -> [u8; 4] {
    let bytes = value.to_le_bytes();
    [OP_PUSH_U16, bytes[0], bytes[1], OP_RET]
}

fn getparam_program(id: u8, argc: u8) -> [u8; 4] {
    [OP_GETPARAM, id, argc, OP_RET]
}

/// A program that never terminates, so it can only end on fuel.
const RUNAWAY_PROGRAM: [u8; 3] = [OP_JMP, 0xFD, 0xFF];

const UNDEFINED_OPCODE_PROGRAM: [u8; 1] = [0xC0];

const PUSH_41_PROGRAM: [u8; 3] = [OP_PUSH_U8, 41, OP_RET];

/// Doubles its argument.
const DOUBLE_ARG_PROGRAM: [u8; 6] = [OP_ARG, 0, OP_PUSH_U8, 2, OP_MUL, OP_RET];

/// An operand index above the arity, so it traps.
const ARG_OUT_OF_RANGE_PROGRAM: [u8; 3] = [OP_ARG, 3, OP_RET];

/// Records what the module reported.
struct RecordingSink {
    calls: Cell<usize>,
    observed: RefCell<[Option<(Commitment, u8)>; 4]>,
}

impl RecordingSink {
    fn new() -> Self {
        Self {
            calls: Cell::new(0),
            observed: RefCell::new([None; 4]),
        }
    }
}

impl ConfigChangeSink for RecordingSink {
    fn on_configuration_changed(&mut self, config: &ActiveConfig<'_>) {
        let index = self.calls.get();
        self.calls.set(index + 1);
        if index < 4 {
            let run = machine(config);
            self.observed.borrow_mut()[index] =
                Some((config.commitment(), config.vote_interest(&run)));
        }
    }
}

#[test]
fn empty_override_set_resolves_every_default() {
    let module = loaded(&[]);
    let config = module
        .active_configuration()
        .expect("content is loaded, so a handle is available");
    let run = machine(&config);

    assert_eq!(config.inter_block_interval_ms(&run), 60_000);
    assert_eq!(config.grace_period_window_ms(&run), 30_000);
    assert_eq!(config.block_size_limit(&run), 2016);
    assert_eq!(config.max_utxo_outputs(), 255);
    assert_eq!(config.max_aggregated_signatures(), 50);
    assert_eq!(config.vote_scale(), 1000);
    assert_eq!(config.vote_interest(&run), 5);
    assert_eq!(config.parent_recovery_per_head_retry_interval_ms(&run), 120_000);
    assert_eq!(config.parent_recovery_min_emit_interval_ms(&run), 10_000);
    assert_eq!(config.required_support(), 3);
    assert_eq!(config.block_fill_threshold_percent(&run), 80);
    assert_eq!(config.active_chain_length(), 500);
    assert_eq!(config.mempool_replenishment_interval_ms(&run), 500_000);
    assert_eq!(config.custodian_fee(&run), 1);
    assert_eq!(config.registration_price(0, &run), 100);
    assert_eq!(config.registration_price(10_000, &run), 100);
    assert_eq!(config.tx_fee_per_byte_min(&run), 0);
    assert_eq!(config.tx_fee_per_byte_max(&run), 1000);
    assert_eq!(config.deviation_replay_insertion_delay_ms(&run), 300_000);
    assert_eq!(config.replay_block_reward(&run), 100);

    assert_eq!(config.echo_request_minimal_interval(&run), 1440);
    assert_eq!(config.echo_messages_target_interval(&run), 100);
    assert_eq!(config.echo_gathering_timeout(&run), 10);
    assert_eq!(config.delay_between_tx_packets(&run), 200);
    assert_eq!(config.delay_between_tx_messages(&run), 20);
    assert_eq!(config.relay_position_delay(&run), 10);
    assert_eq!(config.scoring_matrix(), [255, 243, 65, 82, 143]);
    assert_eq!(config.retry_interval_for_missing_packets(&run), 60);
    assert_eq!(config.tx_maximum_random_delay(&run), 200);

    assert_eq!(config.vm_fuel_limit(), 20_000);
}

#[test]
fn every_default_satisfies_its_own_bound() {
    for id in 1..=PARAMETER_COUNT {
        let spec = spec(id as u8);
        check_bound(spec.id, spec.fallback, &PLATFORM)
            .expect("every code-baked fallback literal must satisfy its structural bound");
        if let DefaultValue::Literal(default) = spec.default {
            check_bound(spec.id, default, &PLATFORM)
                .expect("every code-baked default must satisfy its structural bound");
        }
    }
}

#[test]
fn no_configuration_yields_no_handle() {
    let module = ChainConfiguration::new(NoopConfigChangeSink, PLATFORM);
    assert!(module.active_configuration().is_none());
    assert!(module.tentative_content().is_none());
    assert!(module.durable_content().is_none());
    assert!(!module.is_durable_locked());
}

#[test]
fn literal_override_wins_over_the_default() {
    let module = loaded(&[Entry::Literal(
        parameter::INTER_BLOCK_INTERVAL_MS,
        &45_000u32.to_le_bytes(),
    )]);
    let config = module.active_configuration().expect("handle");
    let run = machine(&config);

    assert_eq!(config.inter_block_interval_ms(&run), 45_000);
    assert_eq!(config.grace_period_window_ms(&run), 30_000);
}

#[test]
fn bytecode_override_is_evaluated() {
    let program = push_u8_program(7);
    let module = loaded(&[Entry::Bytecode(parameter::VOTE_INTEREST, &program)]);
    let config = module.active_configuration().expect("handle");
    let run = machine(&config);

    assert_eq!(config.vote_interest(&run), 7);
}

#[test]
fn bytecode_reads_another_parameter_of_the_same_content() {
    let program = [
        OP_GETPARAM,
        parameter::INTER_BLOCK_INTERVAL_MS,
        0,
        OP_PUSH_U8,
        2,
        OP_DIV,
        OP_RET,
    ];
    let module = loaded(&[
        Entry::Literal(parameter::INTER_BLOCK_INTERVAL_MS, &90_000u32.to_le_bytes()),
        Entry::Bytecode(parameter::GRACE_PERIOD_WINDOW_MS, &program),
    ]);
    let config = module.active_configuration().expect("handle");
    let run = machine(&config);

    assert_eq!(config.grace_period_window_ms(&run), 45_000);
}

#[test]
fn nested_resolution_sees_the_referenced_parameter_default() {
    let program = [OP_GETPARAM, parameter::INTER_BLOCK_INTERVAL_MS, 0, OP_RET];
    let module = loaded(&[Entry::Bytecode(parameter::GRACE_PERIOD_WINDOW_MS, &program)]);
    let config = module.active_configuration().expect("handle");
    let run = machine(&config);

    assert_eq!(config.grace_period_window_ms(&run), 60_000);
}

#[test]
fn a_declared_argument_count_that_contradicts_the_registry_is_declined() {
    let program = [
        OP_PUSH_U8,
        0,
        OP_GETPARAM,
        parameter::INTER_BLOCK_INTERVAL_MS,
        1,
        OP_RET,
    ];
    let module = loaded(&[Entry::Bytecode(parameter::REGISTRATION_PRICE, &program)]);
    let config = module.active_configuration().expect("handle");
    let run = machine(&config);

    assert_eq!(config.registration_price(5, &run), 100);
}

#[test]
fn an_unallocated_identifier_is_declined_at_the_host_seam() {
    let program = getparam_program(120, 0);
    let module = loaded(&[Entry::Bytecode(parameter::REGISTRATION_PRICE, &program)]);
    let config = module.active_configuration().expect("handle");
    let run = machine(&config);

    assert_eq!(config.registration_price(1, &run), 100);
}

#[test]
fn an_argument_taking_program_that_traps_falls_back_to_the_default() {
    let program = [OP_ARG, 3, OP_RET];
    let module = loaded(&[Entry::Bytecode(parameter::REGISTRATION_PRICE, &program)]);
    let config = module.active_configuration().expect("handle");
    let run = machine(&config);

    assert_eq!(config.registration_price(7, &run), 100);
}

#[test]
fn an_argument_taking_program_receives_its_argument() {
    let program = [OP_ARG, 0, OP_PUSH_U8, 5, OP_MUL, OP_RET];
    let module = loaded(&[Entry::Bytecode(parameter::REGISTRATION_PRICE, &program)]);
    let config = module.active_configuration().expect("handle");
    let run = machine(&config);

    assert_eq!(config.registration_price(0, &run), 0);
    assert_eq!(config.registration_price(200, &run), 1000);
}

#[test]
fn a_narrower_accessor_saturates() {
    let program = push_u16_program(300);
    let module = loaded(&[Entry::Bytecode(parameter::VOTE_INTEREST, &program)]);
    let config = module.active_configuration().expect("handle");
    let run = machine(&config);

    assert_eq!(config.vote_interest(&run), u8::MAX);
}

#[test]
fn the_fuel_limit_override_bounds_evaluation() {
    let program = [OP_PUSH_U8, 9, OP_RET];
    let module = loaded(&[
        Entry::Literal(parameter::VM_FUEL_LIMIT, &1u32.to_le_bytes()),
        Entry::Bytecode(parameter::REGISTRATION_PRICE, &program),
    ]);
    let config = module.active_configuration().expect("handle");
    let run = machine(&config);

    assert_eq!(config.vm_fuel_limit(), 1);
    assert_eq!(config.registration_price(0, &run), 100);
}

#[test]
fn each_accessor_invocation_starts_from_a_fresh_budget() {
    let program = [OP_PUSH_U8, 1, OP_PUSH_U8, 2, OP_ADD, OP_RET];
    let module = loaded(&[
        Entry::Literal(parameter::VM_FUEL_LIMIT, &4u32.to_le_bytes()),
        Entry::Bytecode(parameter::REGISTRATION_PRICE, &program),
    ]);
    let config = module.active_configuration().expect("handle");
    let run = machine(&config);

    for _ in 0..8 {
        assert_eq!(config.registration_price(0, &run), 3);
    }
}

#[test]
fn a_program_default_resolves_as_tier_two() {
    let module = loaded(&[]);
    let config = module.active_configuration().expect("handle");
    let run = machine(&config);
    let spec = spec_of_program(parameter::CUSTODIAN_FEE, 8, 0, true, &PUSH_41_PROGRAM, 7);

    let fuel = Budget::Fresh(config.fuel_limit());
    assert_eq!(config.resolve_with(&spec, &[], fuel, &run), 41);
}

#[test]
fn a_program_default_that_fails_falls_through_to_the_fallback_literal() {
    let module = loaded(&[]);
    let config = module.active_configuration().expect("handle");
    let run = machine(&config);
    let spec = spec_of_program(
        parameter::CUSTODIAN_FEE,
        8,
        0,
        true,
        &UNDEFINED_OPCODE_PROGRAM,
        7,
    );

    let fuel = Budget::Fresh(config.fuel_limit());
    assert_eq!(config.resolve_with(&spec, &[], fuel, &run), 7);
}

#[test]
fn tier_two_starts_from_a_fresh_budget_after_tier_one_exhausts_one() {
    let module = loaded(&[Entry::Bytecode(
        parameter::REGISTRATION_PRICE,
        &ARG_OUT_OF_RANGE_PROGRAM,
    )]);
    let config = module.active_configuration().expect("handle");
    let run = machine(&config);
    let spec = spec_of_program(
        parameter::REGISTRATION_PRICE,
        8,
        1,
        true,
        &DOUBLE_ARG_PROGRAM,
        7,
    );

    let exhausted = Budget::Fresh(0);
    assert_eq!(config.resolve_with(&spec, &[21], exhausted, &run), 42);
}

#[test]
fn a_self_referential_program_resolves_to_the_default_it_cannot_reach() {
    let program = getparam_program(parameter::GRACE_PERIOD_WINDOW_MS, 0);
    let module = loaded(&[Entry::Bytecode(parameter::GRACE_PERIOD_WINDOW_MS, &program)]);
    let config = module.active_configuration().expect("handle");
    let run = machine(&config);

    assert_eq!(config.grace_period_window_ms(&run), 30_000);
    assert_eq!(config.grace_period_window_ms(&run), 30_000);
}

#[test]
fn a_two_parameter_cycle_terminates_the_same_way() {
    let first = getparam_program(parameter::GRACE_PERIOD_WINDOW_MS, 0);
    let second = getparam_program(parameter::INTER_BLOCK_INTERVAL_MS, 0);
    let module = loaded(&[
        Entry::Bytecode(parameter::INTER_BLOCK_INTERVAL_MS, &first),
        Entry::Bytecode(parameter::GRACE_PERIOD_WINDOW_MS, &second),
    ]);
    let config = module.active_configuration().expect("handle");
    let run = machine(&config);

    assert_eq!(config.inter_block_interval_ms(&run), 30_000);
    assert_eq!(config.grace_period_window_ms(&run), 60_000);
}

#[test]
fn a_cycle_through_an_argument_taking_parameter_terminates_at_runtime() {
    let program = [
        OP_ARG,
        0,
        OP_GETPARAM,
        parameter::REGISTRATION_PRICE,
        1,
        OP_RET,
    ];
    let module = loaded(&[Entry::Bytecode(parameter::REGISTRATION_PRICE, &program)]);
    let config = module.active_configuration().expect("handle");
    let run = machine(&config);

    assert_eq!(config.registration_price(3, &run), 100);
}

#[test]
fn an_unallocated_identifier_is_rejected_with_its_key_byte() {
    let payload = frame(&[Entry::Literal(120, &[1])]);
    let error = accept(&payload).expect_err("identifier 120 is unallocated");
    assert!(matches!(error, ChainConfigError::UnknownParameter(120)));

    let program = push_u8_program(1);
    let payload = frame(&[Entry::Bytecode(120, &program)]);
    let error = accept(&payload).expect_err("identifier 120 is unallocated");
    assert!(matches!(
        error,
        ChainConfigError::UnknownParameter(byte) if byte == 120 | CONFIG_KEY_BYTECODE_FLAG
    ));
}

#[test]
fn every_duration_is_four_bytes_wide() {
    for id in [
        parameter::INTER_BLOCK_INTERVAL_MS,
        parameter::GRACE_PERIOD_WINDOW_MS,
        parameter::PARENT_RECOVERY_PER_HEAD_RETRY_INTERVAL_MS,
        parameter::PARENT_RECOVERY_MIN_EMIT_INTERVAL_MS,
        parameter::MEMPOOL_REPLENISHMENT_INTERVAL_MS,
        parameter::DEVIATION_REPLAY_INSERTION_DELAY_MS,
    ] {
        let four = frame(&[Entry::Literal(id, &900_000u32.to_le_bytes())]);
        assert!(
            accept(&four).is_ok(),
            "identifier {id} should accept a four-byte literal"
        );

        let eight = frame(&[Entry::Literal(id, &900_000u64.to_le_bytes())]);
        assert!(
            matches!(
                accept(&eight),
                Err(ChainConfigError::ValueWidthMismatch(rejected)) if rejected == id
            ),
            "identifier {id} should refuse an eight-byte literal"
        );
    }

    let module = loaded(&[Entry::Literal(
        parameter::MEMPOOL_REPLENISHMENT_INTERVAL_MS,
        &900_000u32.to_le_bytes(),
    )]);
    let config = module.active_configuration().expect("handle");
    let run = machine(&config);
    assert_eq!(config.mempool_replenishment_interval_ms(&run), 900_000);
}

#[test]
fn a_width_mismatched_literal_is_rejected() {
    let payload = frame(&[Entry::Literal(
        parameter::CUSTODIAN_FEE,
        &1u32.to_le_bytes(),
    )]);
    let error = accept(&payload).expect_err("width must match exactly");
    assert!(matches!(
        error,
        ChainConfigError::ValueWidthMismatch(parameter::CUSTODIAN_FEE)
    ));

    let payload = frame(&[Entry::Literal(
        parameter::INTER_BLOCK_INTERVAL_MS,
        &1u64.to_le_bytes(),
    )]);
    let error = accept(&payload).expect_err("width must match exactly");
    assert!(matches!(
        error,
        ChainConfigError::ValueWidthMismatch(parameter::INTER_BLOCK_INTERVAL_MS)
    ));
}

#[test]
fn bytecode_under_a_literal_only_parameter_is_rejected() {
    let program = push_u8_program(4);
    for id in [
        parameter::MAX_BLOCK_UTXO_OUTPUT,
        parameter::MAX_AGGREGATED_SIGNATURES,
        parameter::VOTE_SCALE,
        parameter::REQUIRED_SUPPORT,
        parameter::ACTIVE_CHAIN_LENGTH,
        parameter::SCORING_MATRIX,
        parameter::VM_FUEL_LIMIT,
    ] {
        let payload = frame(&[Entry::Bytecode(id, &program)]);
        let error = accept(&payload)
            .expect_err("a literal-only parameter refuses a program");
        assert!(
            matches!(error, ChainConfigError::BytecodeNotPermitted(rejected) if rejected == id)
        );
    }
}

#[test]
fn a_duplicate_identifier_is_malformed_framing() {
    let payload = frame_raw(
        2,
        &[
            parameter::VOTE_INTEREST,
            1,
            5,
            parameter::VOTE_INTEREST | CONFIG_KEY_BYTECODE_FLAG,
            1,
            5,
        ],
    );
    let error = accept(&payload).expect_err("a duplicate key is malformed");
    assert!(matches!(error, ChainConfigError::MalformedContent));
}

#[test]
fn the_unusable_key_bytes_are_malformed_framing() {
    for key_byte in [0x00u8, 0x7F, 0x80, 0xFF] {
        let payload = frame_raw(1, &[key_byte, 1, 5]);
        let error = accept(&payload).expect_err("key byte must be usable");
        assert!(matches!(error, ChainConfigError::MalformedContent));
    }
}

#[test]
fn a_payload_over_the_retention_buffer_is_refused() {
    let mut module = ChainConfiguration::new(NoopConfigChangeSink, PLATFORM);
    let oversized = [0u8; MAX_PAYLOAD_SIZE + 1];
    let error = module
        .load_tentative(walk(&oversized))
        .expect_err("the retention buffer is fixed");
    assert!(matches!(error, ChainConfigError::MalformedContent));
    assert!(module.active_configuration().is_none());
}

#[test]
fn required_support_is_bounded_at_both_ends() {
    let accepted = frame(&[Entry::Literal(
        parameter::REQUIRED_SUPPORT,
        &[MAX_AGGREGATED_SIGNATURES as u8],
    )]);
    assert!(accept(&accepted).is_ok());

    let over = frame(&[Entry::Literal(
        parameter::REQUIRED_SUPPORT,
        &[MAX_AGGREGATED_SIGNATURES as u8 + 1],
    )]);
    assert!(matches!(
        accept(&over),
        Err(ChainConfigError::BoundViolation(
            parameter::REQUIRED_SUPPORT
        ))
    ));

    let at_one = frame(&[Entry::Literal(parameter::REQUIRED_SUPPORT, &[1])]);
    assert!(accept(&at_one).is_ok());

    let zero = frame(&[Entry::Literal(parameter::REQUIRED_SUPPORT, &[0])]);
    assert!(matches!(
        accept(&zero),
        Err(ChainConfigError::BoundViolation(
            parameter::REQUIRED_SUPPORT
        ))
    ));
}

#[test]
fn vote_scale_may_not_be_zero() {
    let accepted = frame(&[Entry::Literal(parameter::VOTE_SCALE, &1u16.to_le_bytes())]);
    assert!(accept(&accepted).is_ok());

    let zero = frame(&[Entry::Literal(parameter::VOTE_SCALE, &0u16.to_le_bytes())]);
    assert!(matches!(
        accept(&zero),
        Err(ChainConfigError::BoundViolation(parameter::VOTE_SCALE))
    ));
}

#[test]
fn block_size_limit_is_bounded_by_the_block_buffer() {
    let at_bound = frame(&[Entry::Literal(
        parameter::BLOCK_SIZE_LIMIT,
        &(MAX_BLOCK_SIZE as u16).to_le_bytes(),
    )]);
    assert!(accept(&at_bound).is_ok());

    let over = frame(&[Entry::Literal(
        parameter::BLOCK_SIZE_LIMIT,
        &(MAX_BLOCK_SIZE as u16 + 1).to_le_bytes(),
    )]);
    assert!(matches!(
        accept(&over),
        Err(ChainConfigError::BoundViolation(
            parameter::BLOCK_SIZE_LIMIT
        ))
    ));

    let above_header = frame(&[Entry::Literal(
        parameter::BLOCK_SIZE_LIMIT,
        &(HEADER_SIZE as u16 + 1).to_le_bytes(),
    )]);
    assert!(accept(&above_header).is_ok());

    let at_header = frame(&[Entry::Literal(
        parameter::BLOCK_SIZE_LIMIT,
        &(HEADER_SIZE as u16).to_le_bytes(),
    )]);
    assert!(matches!(
        accept(&at_header),
        Err(ChainConfigError::BoundViolation(
            parameter::BLOCK_SIZE_LIMIT
        ))
    ));
}

#[test]
fn active_chain_length_is_bounded_by_the_compile_time_capacity() {
    let at_bound = frame(&[Entry::Literal(
        parameter::ACTIVE_CHAIN_LENGTH,
        &SNAKE_CHAIN_LENGTH_MAX.to_le_bytes(),
    )]);
    assert!(accept(&at_bound).is_ok());

    let over = frame(&[Entry::Literal(
        parameter::ACTIVE_CHAIN_LENGTH,
        &(SNAKE_CHAIN_LENGTH_MAX + 1).to_le_bytes(),
    )]);
    assert!(matches!(
        accept(&over),
        Err(ChainConfigError::BoundViolation(
            parameter::ACTIVE_CHAIN_LENGTH
        ))
    ));

    let at_one = frame(&[Entry::Literal(
        parameter::ACTIVE_CHAIN_LENGTH,
        &1u16.to_le_bytes(),
    )]);
    assert!(accept(&at_one).is_ok());

    let zero = frame(&[Entry::Literal(
        parameter::ACTIVE_CHAIN_LENGTH,
        &0u16.to_le_bytes(),
    )]);
    assert!(matches!(
        accept(&zero),
        Err(ChainConfigError::BoundViolation(
            parameter::ACTIVE_CHAIN_LENGTH
        ))
    ));
}

#[test]
fn max_block_utxo_output_is_bounded_by_the_spent_bit_width() {
    let at_width_max = frame(&[Entry::Literal(parameter::MAX_BLOCK_UTXO_OUTPUT, &[255])]);
    assert!(accept(&at_width_max).is_ok());

    let zero = frame(&[Entry::Literal(parameter::MAX_BLOCK_UTXO_OUTPUT, &[0])]);
    assert!(matches!(
        accept(&zero),
        Err(ChainConfigError::BoundViolation(
            parameter::MAX_BLOCK_UTXO_OUTPUT
        ))
    ));
    assert!(check_bound(parameter::MAX_BLOCK_UTXO_OUTPUT, UTXO_UNSPENT_BITS as u64, &PLATFORM).is_ok());

    assert!(matches!(
        check_bound(
            parameter::MAX_BLOCK_UTXO_OUTPUT,
            UTXO_UNSPENT_BITS as u64 + 1,
            &PLATFORM
        ),
        Err(ChainConfigError::BoundViolation(
            parameter::MAX_BLOCK_UTXO_OUTPUT
        ))
    ));
    let too_wide = frame(&[Entry::Literal(
        parameter::MAX_BLOCK_UTXO_OUTPUT,
        &(UTXO_UNSPENT_BITS + 1).to_le_bytes(),
    )]);
    assert!(matches!(
        accept(&too_wide),
        Err(ChainConfigError::ValueWidthMismatch(
            parameter::MAX_BLOCK_UTXO_OUTPUT
        ))
    ));
}

#[test]
fn max_aggregated_signatures_is_bounded_by_the_backend_ceiling() {
    let at_bound = frame(&[Entry::Literal(
        parameter::MAX_AGGREGATED_SIGNATURES,
        &[MAX_AGGREGATED_SIGNATURES as u8],
    )]);
    assert!(accept(&at_bound).is_ok());

    let over = frame(&[Entry::Literal(
        parameter::MAX_AGGREGATED_SIGNATURES,
        &[MAX_AGGREGATED_SIGNATURES as u8 + 1],
    )]);
    assert!(matches!(
        accept(&over),
        Err(ChainConfigError::BoundViolation(
            parameter::MAX_AGGREGATED_SIGNATURES
        ))
    ));

    let zero = frame(&[Entry::Literal(parameter::MAX_AGGREGATED_SIGNATURES, &[0])]);
    assert!(matches!(
        accept(&zero),
        Err(ChainConfigError::BoundViolation(
            parameter::MAX_AGGREGATED_SIGNATURES
        ))
    ));
}

#[test]
fn block_fill_threshold_is_a_percentage() {
    let at_bound = frame(&[Entry::Literal(
        parameter::BLOCK_FILL_THRESHOLD_PERCENT,
        &[100],
    )]);
    assert!(accept(&at_bound).is_ok());

    let over = frame(&[Entry::Literal(
        parameter::BLOCK_FILL_THRESHOLD_PERCENT,
        &[101],
    )]);
    assert!(matches!(
        accept(&over),
        Err(ChainConfigError::BoundViolation(
            parameter::BLOCK_FILL_THRESHOLD_PERCENT
        ))
    ));
}

#[test]
fn the_fuel_limit_is_bounded_at_both_ends() {
    assert_eq!(
        u64::from(VM_FUEL_LIMIT_MAX),
        spec(parameter::VM_FUEL_LIMIT).fallback
    );

    let at_bound = frame(&[Entry::Literal(
        parameter::VM_FUEL_LIMIT,
        &VM_FUEL_LIMIT_MAX.to_le_bytes(),
    )]);
    assert!(accept(&at_bound).is_ok());

    let over = frame(&[Entry::Literal(
        parameter::VM_FUEL_LIMIT,
        &(VM_FUEL_LIMIT_MAX + 1).to_le_bytes(),
    )]);
    assert!(matches!(
        accept(&over),
        Err(ChainConfigError::BoundViolation(parameter::VM_FUEL_LIMIT))
    ));

    let zero = frame(&[Entry::Literal(
        parameter::VM_FUEL_LIMIT,
        &0u32.to_le_bytes(),
    )]);
    assert!(matches!(
        accept(&zero),
        Err(ChainConfigError::BoundViolation(parameter::VM_FUEL_LIMIT))
    ));
}

#[test]
fn an_over_budget_fuel_limit_is_refused_whatever_else_the_content_holds() {
    let payload = frame(&[
        Entry::Bytecode(parameter::VOTE_INTEREST, &RUNAWAY_PROGRAM),
        Entry::Literal(parameter::VM_FUEL_LIMIT, &u32::MAX.to_le_bytes()),
    ]);
    assert!(matches!(
        accept(&payload),
        Err(ChainConfigError::BoundViolation(parameter::VM_FUEL_LIMIT))
    ));
}

#[test]
fn the_transaction_fee_range_may_not_be_inverted() {
    let equal = frame(&[
        Entry::Literal(parameter::TX_FEE_PER_BYTE_MIN, &7u64.to_le_bytes()),
        Entry::Literal(parameter::TX_FEE_PER_BYTE_MAX, &7u64.to_le_bytes()),
    ]);
    assert!(accept(&equal).is_ok());

    let inverted = frame(&[
        Entry::Literal(parameter::TX_FEE_PER_BYTE_MIN, &8u64.to_le_bytes()),
        Entry::Literal(parameter::TX_FEE_PER_BYTE_MAX, &7u64.to_le_bytes()),
    ]);
    assert!(matches!(
        accept(&inverted),
        Err(ChainConfigError::BoundViolation(
            parameter::TX_FEE_PER_BYTE_MIN
        ))
    ));

    let over_default_max = frame(&[Entry::Literal(
        parameter::TX_FEE_PER_BYTE_MIN,
        &2000u64.to_le_bytes(),
    )]);
    assert!(matches!(
        accept(&over_default_max),
        Err(ChainConfigError::BoundViolation(
            parameter::TX_FEE_PER_BYTE_MIN
        ))
    ));
}

#[test]
fn a_program_under_a_bounded_parameter_is_not_bound_checked() {
    let over = push_u16_program(MAX_BLOCK_SIZE as u16 + 1);
    let payload = frame(&[Entry::Bytecode(parameter::BLOCK_SIZE_LIMIT, &over)]);
    assert!(accept(&payload).is_ok());

    let module = loaded(&[Entry::Bytecode(parameter::BLOCK_SIZE_LIMIT, &over)]);
    let config = module.active_configuration().expect("handle");
    let run = machine(&config);
    assert_eq!(config.block_size_limit(&run), MAX_BLOCK_SIZE as u16 + 1);

    let literal = frame(&[Entry::Literal(
        parameter::BLOCK_SIZE_LIMIT,
        &(MAX_BLOCK_SIZE as u16 + 1).to_le_bytes(),
    )]);
    assert!(matches!(
        accept(&literal),
        Err(ChainConfigError::BoundViolation(
            parameter::BLOCK_SIZE_LIMIT
        ))
    ));
}

#[test]
fn a_program_that_traps_is_accepted_and_falls_back_at_resolution() {
    let payload = frame(&[Entry::Bytecode(
        parameter::VOTE_INTEREST,
        &UNDEFINED_OPCODE_PROGRAM,
    )]);
    assert!(accept(&payload).is_ok());

    let module = loaded(&[Entry::Bytecode(
        parameter::VOTE_INTEREST,
        &UNDEFINED_OPCODE_PROGRAM,
    )]);
    let config = module.active_configuration().expect("handle");
    let run = machine(&config);
    assert_eq!(config.vote_interest(&run), 5);
    assert_eq!(config.vote_interest(&run), 5);
}

#[test]
fn a_program_that_runs_out_of_fuel_is_accepted_and_falls_back() {
    let payload = frame(&[Entry::Bytecode(parameter::VOTE_INTEREST, &RUNAWAY_PROGRAM)]);
    assert!(accept(&payload).is_ok());

    let module = loaded(&[Entry::Bytecode(parameter::VOTE_INTEREST, &RUNAWAY_PROGRAM)]);
    assert_eq!(
        vote_interest(&module),
        5
    );
}

#[test]
fn no_program_is_evaluated_at_acceptance() {
    for id in [parameter::REGISTRATION_PRICE, parameter::VOTE_INTEREST] {
        let payload = frame(&[Entry::Bytecode(id, &UNDEFINED_OPCODE_PROGRAM)]);
        assert!(
            accept(&payload).is_ok(),
            "identifier {id} should be accepted with an unevaluated program"
        );
    }
}

#[test]
fn a_rejected_content_leaves_the_previous_state_untouched() {
    let good = frame(&[Entry::Literal(parameter::VOTE_INTEREST, &[9])]);
    let bad = frame(&[Entry::Literal(parameter::REQUIRED_SUPPORT, &[0])]);

    let mut module = ChainConfiguration::new(NoopConfigChangeSink, PLATFORM);
    module.load_tentative(walk(good.as_slice())).expect("accepted");
    assert!(module.load_tentative(walk(bad.as_slice())).is_err());

    let config = module.active_configuration().expect("handle");
    let run = machine(&config);
    assert_eq!(config.vote_interest(&run), 9);
}

#[test]
fn tentative_load_exposes_tentative_content_only() {
    let payload = frame(&[Entry::Literal(parameter::VOTE_INTEREST, &[6])]);
    let mut module = ChainConfiguration::new(NoopConfigChangeSink, PLATFORM);
    module.load_tentative(walk(payload.as_slice())).expect("accepted");

    let content_len = payload.as_slice().len() - SIGNATURE_SIZE;
    assert_eq!(
        module.tentative_content(),
        Some(&payload.as_slice()[..content_len])
    );
    assert!(module.durable_content().is_none());
    assert!(!module.is_durable_locked());
    assert_eq!(
        module.active_configuration().expect("handle").commitment(),
        Commitment::Tentative
    );
}

#[test]
fn promotion_flips_the_flag_over_the_same_bytes() {
    let payload = frame(&[Entry::Literal(parameter::VOTE_INTEREST, &[6])]);
    let mut module = ChainConfiguration::new(NoopConfigChangeSink, PLATFORM);
    module.load_tentative(walk(payload.as_slice())).expect("accepted");
    let before = module.tentative_content().expect("tentative").len();

    module.promote_durable().expect("first promotion");

    assert!(module.is_durable_locked());
    assert!(module.tentative_content().is_none());
    let after = module.durable_content().expect("durable");
    assert_eq!(after.len(), before);
    assert_eq!(
        module.active_configuration().expect("handle").commitment(),
        Commitment::Durable
    );
    assert_eq!(
        vote_interest(&module),
        6
    );
}

#[test]
fn a_second_promotion_is_refused() {
    let payload = frame(&[]);
    let mut module = ChainConfiguration::new(NoopConfigChangeSink, PLATFORM);
    module.load_tentative(walk(payload.as_slice())).expect("accepted");
    module.promote_durable().expect("first promotion");

    assert!(matches!(
        module.promote_durable(),
        Err(ChainConfigError::DurableLocked)
    ));
    assert!(module.is_durable_locked());
}

#[test]
fn promotion_without_content_is_refused() {
    let mut module = ChainConfiguration::new(NoopConfigChangeSink, PLATFORM);
    assert!(matches!(
        module.promote_durable(),
        Err(ChainConfigError::NotLoaded)
    ));
}

#[test]
fn a_load_after_the_durable_lock_is_refused() {
    let first = frame(&[Entry::Literal(parameter::VOTE_INTEREST, &[6])]);
    let second = frame(&[Entry::Literal(parameter::VOTE_INTEREST, &[7])]);

    let mut module = ChainConfiguration::new(NoopConfigChangeSink, PLATFORM);
    module.load_durable(walk(first.as_slice())).expect("accepted");

    assert!(matches!(
        module.load_tentative(walk(second.as_slice())),
        Err(ChainConfigError::DurableLocked)
    ));
    assert!(matches!(
        module.load_durable(walk(second.as_slice())),
        Err(ChainConfigError::DurableLocked)
    ));
    assert_eq!(
        vote_interest(&module),
        6
    );
}

#[test]
fn discard_returns_the_module_to_absent() {
    let payload = frame(&[Entry::Literal(parameter::VOTE_INTEREST, &[6])]);
    let mut module = ChainConfiguration::new(NoopConfigChangeSink, PLATFORM);
    module.load_tentative(walk(payload.as_slice())).expect("accepted");

    module.discard_tentative();

    assert!(module.active_configuration().is_none());
    assert!(module.tentative_content().is_none());

    let replacement = frame(&[Entry::Literal(parameter::VOTE_INTEREST, &[8])]);
    module
        .load_tentative(walk(replacement.as_slice()))
        .expect("accepted");
    assert_eq!(
        vote_interest(&module),
        8
    );
}

#[test]
fn discard_never_drops_a_durable_configuration() {
    let payload = frame(&[Entry::Literal(parameter::VOTE_INTEREST, &[6])]);
    let mut module = ChainConfiguration::new(NoopConfigChangeSink, PLATFORM);
    module.load_durable(walk(payload.as_slice())).expect("accepted");

    module.discard_tentative();

    assert!(module.is_durable_locked());
    assert_eq!(
        vote_interest(&module),
        6
    );
}

#[test]
fn the_sink_observes_exactly_the_state_transitions() {
    let first = frame(&[Entry::Literal(parameter::VOTE_INTEREST, &[1])]);
    let replacement = frame(&[Entry::Literal(parameter::VOTE_INTEREST, &[2])]);
    let rejected = frame(&[Entry::Literal(parameter::REQUIRED_SUPPORT, &[0])]);

    let mut module = ChainConfiguration::new(RecordingSink::new(), PLATFORM);

    module.load_tentative(walk(first.as_slice())).expect("accepted");
    module
        .load_tentative(walk(replacement.as_slice()))
        .expect("accepted");
    assert!(module.load_tentative(walk(rejected.as_slice())).is_err());
    module.promote_durable().expect("promotion");
    assert!(module.promote_durable().is_err());

    let sink = module.sink();
    assert_eq!(sink.calls.get(), 3);
    assert_eq!(
        *sink.observed.borrow(),
        [
            Some((Commitment::Tentative, 1)),
            Some((Commitment::Tentative, 2)),
            Some((Commitment::Durable, 2)),
            None,
        ]
    );
}

#[test]
fn discard_is_not_reported() {
    let payload = frame(&[Entry::Literal(parameter::VOTE_INTEREST, &[1])]);
    let mut module = ChainConfiguration::new(RecordingSink::new(), PLATFORM);
    module.load_tentative(walk(payload.as_slice())).expect("accepted");
    module.discard_tentative();

    assert_eq!(module.sink().calls.get(), 1);
}
