//! The rules that hold across operations, on concrete values.

use moonblokz_configuration::acceptance::{bounded, check_bound};
use moonblokz_configuration::registry::{is_allocated, spec};
use moonblokz_configuration::{
    accept_content, parameter, parameter_spec, ActiveConfig, Budget, ChainConfigError,
    ChainConfigTrait, ChainConfiguration, Commitment, ConfigValue, DefaultValue, FramedPayload,
    NoopConfigChangeSink, Platform, ProgramOutcome, PARAMETER_COUNT, SCORING_MATRIX_LEN,
};

const PLATFORM: Platform = Platform {
    max_payload_size: 1000,
    header_size: 100,
    max_block_size: 2016,
    max_aggregated_signatures: 60,
    resolve_parameter: 5,
};

fn literal(id: u8, value: &[u8]) -> ConfigValue {
    ConfigValue {
        key_byte: id,
        parameter_id: id,
        bytecode: false,
        value: value.to_vec(),
    }
}

fn program(id: u8, code: &[u8]) -> ConfigValue {
    ConfigValue {
        key_byte: id | 0x80,
        parameter_id: id,
        bytecode: true,
        value: code.to_vec(),
    }
}

fn framed(entries: Vec<ConfigValue>) -> FramedPayload {
    FramedPayload::new(vec![1, 2, 3, 4, 5], 3, entries).expect("well framed")
}

fn accept(entries: Vec<ConfigValue>) -> Result<usize, ChainConfigError> {
    accept_content(Some(&framed(entries)), &PLATFORM)
}

fn never(_: &[u8], _: &[u64], _: Budget) -> ProgramOutcome {
    panic!("no program should run")
}

/// A machine on which every program returns the sum of its bytes and its arguments.
fn adding(code: &[u8], args: &[u64], _: Budget) -> ProgramOutcome {
    let bytes: u64 = code.iter().map(|byte| *byte as u64).sum();
    ProgramOutcome::Completed(bytes + args.iter().sum::<u64>())
}

fn exhausted(_: &[u8], _: &[u64], _: Budget) -> ProgramOutcome {
    ProgramOutcome::OutOfFuel
}

fn trapped(_: &[u8], _: &[u64], _: Budget) -> ProgramOutcome {
    ProgramOutcome::Trapped
}

#[test]
fn framing_refuses_what_no_envelope_holds() {
    let made = |content_len: usize, entries: Vec<ConfigValue>| {
        FramedPayload::new(vec![9, 8, 7], content_len, entries)
    };
    assert!(made(4, vec![]).is_none());
    assert!(made(3, vec![literal(0, &[])]).is_none());
    assert!(made(3, vec![literal(127, &[])]).is_none());
    assert!(made(3, vec![literal(7, &[1]), program(7, &[1])]).is_none());

    let payload = made(2, vec![literal(126, &[1]), program(7, &[1])]).expect("well framed");
    assert_eq!(payload.payload(), &[9, 8, 7]);
    assert_eq!(payload.content(), &[9, 8]);
    assert_eq!(payload.entries().len(), 2);
    assert!(payload.entry(7).expect("found").bytecode);
    assert!(payload.entry(8).is_none());
    assert_eq!(payload.into_payload(), vec![9, 8, 7]);
}

#[test]
fn the_registry_is_dense_and_its_defaults_fit() {
    assert_eq!(PARAMETER_COUNT, 29);
    for id in 0..=255u8 {
        let allocated = (1..=29).contains(&id);
        assert_eq!(is_allocated(id), allocated);
        match parameter_spec(id) {
            None => assert!(!allocated),
            Some(record) => {
                assert!(allocated);
                assert_eq!(record.id, id);
                assert!(record.width >= 1 && record.width <= 8);
                assert!(record.width == 8 || record.fallback < 1u64 << (8 * record.width));
                match record.default {
                    DefaultValue::Literal(value) => assert_eq!(value, record.fallback),
                    DefaultValue::Program(_) => panic!("no default is a program"),
                }
                let arity = if id == parameter::REGISTRATION_PRICE { 1 } else { 0 };
                assert_eq!(record.args, arity);
            }
        }
    }
    assert_eq!(
        spec(parameter::SCORING_MATRIX).width as usize,
        SCORING_MATRIX_LEN
    );
}

#[test]
fn the_bounds_are_exact_at_their_ends() {
    let cases: [(u8, u64, u64); 8] = [
        (parameter::MAX_BLOCK_UTXO_OUTPUT, 1, 256),
        (parameter::REQUIRED_SUPPORT, 1, 60),
        (parameter::MAX_AGGREGATED_SIGNATURES, 1, 60),
        (parameter::VOTE_SCALE, 1, u64::MAX),
        (parameter::BLOCK_SIZE_LIMIT, 101, 2016),
        (parameter::BLOCK_FILL_THRESHOLD_PERCENT, 0, 100),
        (parameter::ACTIVE_CHAIN_LENGTH, 1, 500),
        (parameter::VM_FUEL_LIMIT, 1, 20_000),
    ];
    for (id, low, high) in cases {
        let refused = Err(ChainConfigError::BoundViolation(id));
        assert_eq!(check_bound(id, low, &PLATFORM), Ok(()));
        assert_eq!(check_bound(id, high, &PLATFORM), Ok(()));
        if low > 0 {
            assert_eq!(check_bound(id, low - 1, &PLATFORM), refused);
            assert_eq!(bounded(id, low - 1, &PLATFORM), None);
        }
        if high < u64::MAX {
            assert_eq!(check_bound(id, high + 1, &PLATFORM), refused);
            let computed = if id == parameter::BLOCK_SIZE_LIMIT {
                Some(high + 1)
            } else {
                None
            };
            assert_eq!(bounded(id, high + 1, &PLATFORM), computed);
        }
        assert_eq!(bounded(id, high, &PLATFORM), Some(high));
    }
    assert_eq!(check_bound(parameter::CUSTODIAN_FEE, u64::MAX, &PLATFORM), Ok(()));
    assert_eq!(check_bound(200, 0, &PLATFORM), Ok(()));
}

#[test]
fn acceptance_goes_pass_by_pass() {
    assert_eq!(accept_content(None, &PLATFORM), Err(ChainConfigError::MalformedContent));
    assert_eq!(accept(vec![]), Ok(3));

    // A fault of conformance counts before a fault of bounds, wherever the two stand.
    let entries = vec![literal(parameter::REQUIRED_SUPPORT, &[0]), program(99, &[])];
    assert_eq!(accept(entries), Err(ChainConfigError::UnknownParameter(99 | 0x80)));
    let entries = vec![
        literal(parameter::REQUIRED_SUPPORT, &[0]),
        literal(parameter::VOTE_INTEREST, &[1, 2]),
    ];
    assert_eq!(
        accept(entries),
        Err(ChainConfigError::ValueWidthMismatch(parameter::VOTE_INTEREST))
    );

    // A fault of bounds counts before the rule that spans two parameters.
    let entries = vec![
        literal(parameter::TX_FEE_PER_BYTE_MIN, &2000u64.to_le_bytes()),
        literal(parameter::ACTIVE_CHAIN_LENGTH, &0u16.to_le_bytes()),
    ];
    assert_eq!(
        accept(entries),
        Err(ChainConfigError::BoundViolation(parameter::ACTIVE_CHAIN_LENGTH))
    );

    // A program at either end of the fee range contributes the default.
    let entries = vec![
        literal(parameter::TX_FEE_PER_BYTE_MIN, &1000u64.to_le_bytes()),
        program(parameter::TX_FEE_PER_BYTE_MAX, &[1]),
    ];
    assert_eq!(accept(entries), Ok(3));
    let entries = vec![
        literal(parameter::TX_FEE_PER_BYTE_MIN, &1001u64.to_le_bytes()),
        program(parameter::TX_FEE_PER_BYTE_MAX, &[1]),
    ];
    assert_eq!(
        accept(entries),
        Err(ChainConfigError::BoundViolation(parameter::TX_FEE_PER_BYTE_MIN))
    );

    let large = FramedPayload::new(vec![0; 1001], 900, vec![]);
    assert_eq!(
        accept_content(large.as_ref(), &PLATFORM),
        Err(ChainConfigError::MalformedContent)
    );
    let full = FramedPayload::new(vec![0; 1000], 900, vec![]);
    assert_eq!(accept_content(full.as_ref(), &PLATFORM), Ok(900));
}

#[test]
fn literals_and_defaults_are_read_without_running_anything() {
    let payload = framed(vec![
        literal(parameter::CUSTODIAN_FEE, &u64::MAX.to_le_bytes()),
        literal(parameter::VOTE_INTEREST, &[255]),
    ]);
    let config = ActiveConfig::over(&payload, Commitment::Durable, PLATFORM);
    assert_eq!(config.custodian_fee(&never), u64::MAX);
    assert_eq!(config.vote_interest(&never), 255);
    assert_eq!(config.registration_price(17, &never), 100);
    assert_eq!(config.tx_maximum_random_delay(&never), 200);
    assert_eq!(config.commitment(), Commitment::Durable);
}

#[test]
fn a_program_that_fails_falls_back_and_one_that_completes_is_read() {
    let payload = framed(vec![
        program(parameter::REGISTRATION_PRICE, &[3, 4]),
        program(parameter::BLOCK_FILL_THRESHOLD_PERCENT, &[100, 1]),
        program(parameter::VOTE_INTEREST, &[200, 100]),
        program(parameter::BLOCK_SIZE_LIMIT, &[1]),
    ]);
    let config = ActiveConfig::over(&payload, Commitment::Tentative, PLATFORM);
    assert_eq!(config.registration_price(10, &adding), 17);
    assert_eq!(config.registration_price(10, &exhausted), 100);
    assert_eq!(config.registration_price(10, &trapped), 100);
    // One above a percentage: the value may not stand.
    assert_eq!(config.block_fill_threshold_percent(&adding), 80);
    assert_eq!(config.vote_interest(&adding), 255);
    // Not above the header: the value may not stand either.
    assert_eq!(config.block_size_limit(&adding), 2016);
}

#[test]
fn a_computed_block_size_limit_is_held_to_the_header_only() {
    let cases: [(&[u8], u16); 4] = [
        (&[100], 2016),
        (&[100, 1], 101),
        (&[255; 8], 2040),
        (&[], 2016),
    ];
    for (code, expected) in cases {
        let payload = framed(vec![program(parameter::BLOCK_SIZE_LIMIT, code)]);
        assert!(accept_content(Some(&payload), &PLATFORM).is_ok());
        let config = ActiveConfig::over(&payload, Commitment::Tentative, PLATFORM);
        assert_eq!(config.block_size_limit(&adding), expected);
    }
}

#[test]
fn contents_that_differ_in_their_programs_are_answered_alike() {
    for support in [0u8, 3] {
        let with = |code: &[u8]| {
            accept(vec![
                program(parameter::VOTE_INTEREST, code),
                literal(parameter::REQUIRED_SUPPORT, &[support]),
            ])
        };
        assert_eq!(with(&[]), with(&[1, 2, 3]));
    }
}

#[test]
fn budgets_are_fresh_for_accessors_and_inherited_for_nested_reads() {
    let payload = framed(vec![
        program(parameter::REGISTRATION_PRICE, &[1]),
        literal(parameter::VM_FUEL_LIMIT, &77u32.to_le_bytes()),
    ]);
    let config = ActiveConfig::over(&payload, Commitment::Tentative, PLATFORM);
    let telling = |_: &[u8], _: &[u64], budget: Budget| match budget {
        Budget::Fresh(units) => ProgramOutcome::Completed(units as u64),
        Budget::Inherited => ProgramOutcome::Completed(1_000_000),
    };
    assert_eq!(config.registration_price(0, &telling), 77);
    assert_eq!(
        config.call(5, parameter::REGISTRATION_PRICE, &[0], &telling),
        Some(1_000_000)
    );
}

#[test]
fn the_host_seam_declines_what_the_registry_does_not_record() {
    let payload = framed(vec![]);
    let config = ActiveConfig::over(&payload, Commitment::Tentative, PLATFORM);
    assert_eq!(config.call(5, parameter::VOTE_INTEREST, &[], &never), Some(5));
    assert_eq!(config.call(6, parameter::VOTE_INTEREST, &[], &never), None);
    assert_eq!(config.call(5, parameter::VOTE_INTEREST, &[1], &never), None);
    assert_eq!(config.call(5, parameter::REGISTRATION_PRICE, &[], &never), None);
    assert_eq!(config.call(5, 0, &[], &never), None);
    assert_eq!(config.call(5, 30, &[], &never), None);
}

#[test]
fn required_support_is_clamped_to_what_the_chain_aggregates() {
    let payload = framed(vec![
        literal(parameter::REQUIRED_SUPPORT, &[40]),
        literal(parameter::MAX_AGGREGATED_SIGNATURES, &[7]),
    ]);
    assert!(accept_content(Some(&payload), &PLATFORM).is_ok());
    let config = ActiveConfig::over(&payload, Commitment::Tentative, PLATFORM);
    assert_eq!(config.required_support(), 7);
    assert_eq!(config.max_aggregated_signatures(), 7);
}

#[test]
fn a_vote_scale_of_zero_never_reaches_a_reader() {
    let payload = framed(vec![literal(parameter::VOTE_SCALE, &[0, 0])]);
    let config = ActiveConfig::over(&payload, Commitment::Tentative, PLATFORM);
    assert_eq!(config.vote_scale(), 1000);
}

#[test]
fn builds_of_different_capacity_read_alike() {
    let payload = framed(vec![
        literal(parameter::MAX_AGGREGATED_SIGNATURES, &[60]),
        literal(parameter::REQUIRED_SUPPORT, &[55]),
    ]);
    let other = Platform {
        max_payload_size: 7,
        max_aggregated_signatures: 50,
        ..PLATFORM
    };
    let here = ActiveConfig::over(&payload, Commitment::Tentative, PLATFORM);
    let there = ActiveConfig::over(&payload, Commitment::Durable, other);
    assert_eq!(here.required_support(), there.required_support());
    assert_eq!(
        here.max_aggregated_signatures(),
        there.max_aggregated_signatures()
    );
    assert_eq!(accept_content(Some(&payload), &PLATFORM), Ok(3));
    assert_eq!(
        accept_content(Some(&payload), &other),
        Err(ChainConfigError::BoundViolation(
            parameter::MAX_AGGREGATED_SIGNATURES
        ))
    );
}

#[test]
fn a_durable_configuration_is_set_once() {
    let mut module = ChainConfiguration::new(NoopConfigChangeSink, PLATFORM);
    assert_eq!(module.load_durable(Some(framed(vec![]))), Ok(()));
    assert_eq!(
        module.load_tentative(None),
        Err(ChainConfigError::DurableLocked)
    );
    assert_eq!(module.promote_durable(), Err(ChainConfigError::DurableLocked));
    module.discard_tentative();
    assert_eq!(module.durable_content(), Some(&[1u8, 2, 3][..]));
    assert_eq!(module.tentative_content(), None);
    assert!(module.is_durable_locked());
}

#[test]
fn a_refusal_changes_nothing() {
    let mut module = ChainConfiguration::new(NoopConfigChangeSink, PLATFORM);
    assert_eq!(
        module.load_durable(Some(framed(vec![literal(99, &[])]))),
        Err(ChainConfigError::UnknownParameter(99))
    );
    assert!(module.active_configuration().is_none());
    assert_eq!(module.load_tentative(Some(framed(vec![]))), Ok(()));
    assert_eq!(
        module.load_durable(None),
        Err(ChainConfigError::MalformedContent)
    );
    assert_eq!(module.tentative_content(), Some(&[1u8, 2, 3][..]));
    assert!(!module.is_durable_locked());
}

#[test]
fn the_signature_has_no_say_in_acceptance() {
    for support in [0u8, 3] {
        let signed = |last: u8| {
            FramedPayload::new(
                vec![1, 2, 3, last, last],
                3,
                vec![literal(parameter::REQUIRED_SUPPORT, &[support])],
            )
        };
        let verdict = accept_content(signed(0).as_ref(), &PLATFORM);
        assert_eq!(verdict, accept_content(signed(255).as_ref(), &PLATFORM));
        if support == 3 {
            assert_eq!(verdict, Ok(3));
        }
    }
}

#[test]
fn a_build_that_refuses_a_default_does_not_honour_the_defaults() {
    let narrow = [
        Platform {
            header_size: 2016,
            ..PLATFORM
        },
        Platform {
            max_block_size: 2015,
            ..PLATFORM
        },
        Platform {
            max_aggregated_signatures: 49,
            ..PLATFORM
        },
    ];
    let refused = |platform: &Platform| {
        (1..=29u8)
            .filter(|id| check_bound(*id, spec(*id).fallback, platform).is_err())
            .count()
    };
    assert_eq!(refused(&PLATFORM), 0);
    for platform in narrow {
        assert_eq!(refused(&platform), 1);
    }
}
