//! Encoding a configuration that was written down as text.
//!
//! A small assembler, a small machine and a blank signature stand in for those of a node.

use std::cell::RefCell;

use moonblokz_configuration::encoder::{describe, finish, parse};
use moonblokz_configuration::{
    encode as encode_with, identifier_of, parameter_spec, ActiveConfig, Budget, ChainConfigError,
    ChainConfigTrait, ChainConfiguration, ConfigValue, EncodeError, FramedPayload,
    NoopConfigChangeSink, Override, Platform, ProgramOutcome, Sealing, Value, NAMES,
    SNAKE_CHAIN_LENGTH_MAX,
};

const MAX_PAYLOAD_SIZE: usize = 1900;
const SIGNATURE_SIZE: usize = 64;
const FLAG: u8 = 0x80;
const RESOLVE: u16 = 1;

const PLATFORM: Platform = Platform {
    max_payload_size: MAX_PAYLOAD_SIZE,
    header_size: 116,
    max_block_size: 2016,
    max_aggregated_signatures: 100,
    resolve_parameter: RESOLVE,
};

const OP_RET: u8 = 1;
const OP_PUSH: u8 = 2;
const OP_DIV: u8 = 3;
const OP_GETPARAM: u8 = 4;

fn assemble(text: &str) -> Result<Vec<u8>, EncodeError> {
    let mut code = Vec::new();
    for (index, line) in text.lines().enumerate() {
        let instruction = line.split(';').next().unwrap_or("");
        let tokens: Vec<&str> = instruction
            .split(|c: char| c == ',' || c.is_whitespace())
            .filter(|token| !token.is_empty())
            .collect();
        let fault = |message: &str| EncodeError {
            line: index + 1,
            message: message.to_string(),
        };
        let operand = |at: usize| -> Result<u8, EncodeError> {
            match tokens.get(at).and_then(|token| token.parse().ok()) {
                Some(value) => Ok(value),
                None => Err(fault("malformed operand")),
            }
        };
        match tokens.first() {
            None => {}
            Some(&"RET") => code.push(OP_RET),
            Some(&"DIV") => code.push(OP_DIV),
            Some(&"PUSH") => code.extend_from_slice(&[OP_PUSH, operand(1)?]),
            Some(&"GETPARAM") => {
                code.extend_from_slice(&[OP_GETPARAM, operand(1)?, operand(2)?])
            }
            Some(_) => return Err(fault("unknown mnemonic")),
        }
    }
    Ok(code)
}

fn walk(payload: Vec<u8>) -> Option<FramedPayload> {
    let content_len = payload.len() - SIGNATURE_SIZE;
    let mut entries = Vec::new();
    let mut at = 2;
    while at < content_len {
        let len = payload[at + 1] as usize;
        entries.push(ConfigValue {
            key_byte: payload[at],
            parameter_id: payload[at] & !FLAG,
            bytecode: payload[at] & FLAG != 0,
            value: payload[at + 2..at + 2 + len].to_vec(),
        });
        at += 2 + len;
    }
    FramedPayload::new(payload, content_len, entries)
}

fn seal(overrides: &[Override]) -> Sealing {
    let mut payload = (overrides.len() as u16).to_le_bytes().to_vec();
    for (index, entry) in overrides.iter().enumerate() {
        let (key, value) = match &entry.value {
            Value::Literal(bytes) => (entry.id, bytes),
            Value::Program(code) => (entry.id | FLAG, code),
        };
        let repeated = overrides[..index].iter().any(|other| other.id == entry.id);
        let len = payload.len() + 2 + value.len() + SIGNATURE_SIZE;
        if repeated || value.len() > 255 || len > MAX_PAYLOAD_SIZE {
            return Sealing::EntryRefused(index);
        }
        payload.push(key);
        payload.push(value.len() as u8);
        payload.extend_from_slice(value);
    }
    payload.extend_from_slice(&[0u8; SIGNATURE_SIZE]);
    Sealing::Sealed(walk(payload))
}

fn encode(source: &str) -> Result<Vec<u8>, EncodeError> {
    encode_with(source, &assemble, &seal, &PLATFORM)
}

fn loaded(source: &str) -> ChainConfiguration<NoopConfigChangeSink> {
    let payload = encode(source).expect("the fixture should encode");
    let mut module = ChainConfiguration::new(NoopConfigChangeSink, PLATFORM);
    module
        .load_tentative(walk(payload))
        .expect("what the encoder accepts, the runtime accepts");
    module
}

/// Runs a program. The fuel is an upper bound on the instructions of one accessor call.
fn run_on(
    config: &ActiveConfig<'_>,
    fuel: &RefCell<u32>,
    program: &[u8],
    args: &[u64],
    budget: Budget,
) -> ProgramOutcome {
    if let Budget::Fresh(units) = budget {
        *fuel.borrow_mut() = units;
    }
    let mut stack: Vec<u64> = args.to_vec();
    let mut at = 0;
    loop {
        if *fuel.borrow() == 0 {
            return ProgramOutcome::OutOfFuel;
        }
        *fuel.borrow_mut() -= 1;
        match program.get(at) {
            Some(&OP_RET) => {
                return match stack.pop() {
                    Some(value) => ProgramOutcome::Completed(value),
                    None => ProgramOutcome::Trapped,
                }
            }
            Some(&OP_PUSH) => {
                stack.push(program[at + 1] as u64);
                at += 2;
            }
            Some(&OP_DIV) => {
                let right = stack.pop().unwrap_or(0);
                let left = stack.pop().unwrap_or(0);
                match left.checked_div(right) {
                    Some(value) => stack.push(value),
                    None => return ProgramOutcome::Trapped,
                }
                at += 1;
            }
            Some(&OP_GETPARAM) => {
                let nested = |program: &[u8], args: &[u64], budget: Budget| {
                    run_on(config, fuel, program, args, budget)
                };
                match config.call(RESOLVE, program[at + 1], &[], &nested) {
                    Some(value) => stack.push(value),
                    None => return ProgramOutcome::Trapped,
                }
                at += 3;
            }
            _ => return ProgramOutcome::Trapped,
        }
    }
}

fn machine<'a>(
    config: &'a ActiveConfig<'a>,
) -> impl Fn(&[u8], &[u64], Budget) -> ProgramOutcome + 'a {
    let fuel = RefCell::new(0);
    move |program: &[u8], args: &[u64], budget: Budget| {
        run_on(config, &fuel, program, args, budget)
    }
}

#[test]
fn names_match_the_registry() {
    for (name, id) in NAMES {
        assert!(
            parameter_spec(id).is_some(),
            "`{name}` refers to unallocated identifier {id}"
        );
    }
    let mut seen = vec![false; NAMES.len() + 1];
    for (name, id) in NAMES {
        assert!(!seen[id as usize], "identifier {id} named twice (`{name}`)");
        seen[id as usize] = true;
    }
    for id in 1..=NAMES.len() as u8 {
        assert!(
            parameter_spec(id).is_some() == seen[id as usize],
            "identifier {id} is allocated but unnamed, or named but unallocated"
        );
    }
}

#[test]
fn integer_and_hexadecimal_literals_encode() {
    let module = loaded(
        "# a terser inter-block interval\n\
         inter_block_interval_ms = 45000\n\
         vote_interest = 0x09\n",
    );
    let config = module.active_configuration().expect("handle");
    let run = machine(&config);
    assert_eq!(config.inter_block_interval_ms(&run), 45_000);
    assert_eq!(config.vote_interest(&run), 9);
}

#[test]
fn a_byte_list_encodes_an_array_parameter() {
    let module = loaded("scoring_matrix = [1, 2, 3, 4, 0xFF]\n");
    assert_eq!(
        module
            .active_configuration()
            .expect("handle")
            .scoring_matrix(),
        [1, 2, 3, 4, 255]
    );
}

#[test]
fn a_program_block_is_assembled_and_its_references_resolved() {
    let module = loaded(
        "inter_block_interval_ms = 90000\n\
         grace_period_window_ms = {\n\
         \x20   GETPARAM @inter_block_interval_ms, 0   ; read, do not restate\n\
         \x20   PUSH 2\n\
         \x20   DIV\n\
         \x20   RET\n\
         }\n",
    );
    let config = module.active_configuration().expect("handle");
    let run = machine(&config);
    assert_eq!(config.grace_period_window_ms(&run), 45_000);
}

#[test]
fn an_empty_input_encodes_the_empty_override_set() {
    let module = loaded("# nothing overridden\n");
    let config = module.active_configuration().expect("handle");
    let run = machine(&config);
    assert_eq!(config.inter_block_interval_ms(&run), 60_000);
}

#[test]
fn an_unknown_name_is_refused() {
    let error = encode("no_such_parameter = 1\n").expect_err("unknown name");
    assert_eq!(error.line, 1);
    assert!(error.message.contains("unknown parameter"));
}

#[test]
fn a_value_over_the_declared_width_is_refused() {
    let error = encode("vote_interest = 256\n").expect_err("one byte wide");
    assert_eq!(error.line, 1);
    assert!(error.message.contains("1-byte width"));
}

#[test]
fn a_byte_list_of_the_wrong_length_is_refused() {
    let error = encode("scoring_matrix = [1, 2, 3]\n").expect_err("five bytes wide");
    assert!(error.message.contains("5 bytes wide"));
}

#[test]
fn a_program_under_a_literal_only_parameter_is_refused() {
    let error =
        encode("required_support = {\n    PUSH 3\n    RET\n}\n").expect_err("literal-only");
    assert_eq!(error.line, 1);
    assert!(error.message.contains("literal-only"));
}

#[test]
fn a_getparam_arity_that_contradicts_the_registry_is_refused() {
    let error =
        encode("vote_interest = {\n    GETPARAM @inter_block_interval_ms, 1\n    RET\n}\n")
            .expect_err("identifier 1 is argument-less");
    assert_eq!(error.line, 2);
    assert!(error.message.contains("arity 0"));
}

#[test]
fn a_getparam_naming_an_unallocated_identifier_is_refused() {
    let error = encode("vote_interest = {\n    GETPARAM 120, 0\n    RET\n}\n")
        .expect_err("identifier 120 is unallocated");
    assert_eq!(error.line, 2);
    assert!(error.message.contains("does not allocate"));
}

#[test]
fn an_assembler_diagnostic_keeps_its_line_number() {
    let error = encode("vote_interest = {\n    PUSH 1\n    NOSUCHOP\n    RET\n}\n")
        .expect_err("unknown mnemonic");
    assert_eq!(error.line, 3);
}

#[test]
fn a_repeated_parameter_is_refused() {
    let error =
        encode("vote_interest = 1\nvote_interest = 2\n").expect_err("one entry per parameter");
    assert_eq!(error.line, 2);
}

#[test]
fn the_acceptance_checks_of_the_runtime_are_applied() {
    let error = encode(&format!(
        "active_chain_length = {}\n",
        SNAKE_CHAIN_LENGTH_MAX + 1
    ))
    .expect_err("over the compile-time capacity");
    assert_eq!(error.line, 0);
    assert!(error.message.contains("structural bound"));

    let error = encode("vote_interest = {\n    GETPARAM @vote_scale, 0\n    RET\n}\n");
    assert!(error.is_ok(), "reading another parameter is legitimate");
}

#[test]
fn an_unterminated_program_block_is_refused() {
    let error = encode("vote_interest = {\n    PUSH 1\n").expect_err("unterminated");
    assert_eq!(error.line, 1);
    assert!(error.message.contains("unterminated"));
}

fn message_of(source: &str) -> String {
    encode(source).expect_err("should be refused").rendered()
}

#[test]
fn every_diagnostic_reads_as_it_should() {
    assert_eq!(message_of("vote_interest\n"), "line 1: expected `name = value`");
    assert_eq!(
        message_of("\n\n  nonsense = 1 # with a comment\n"),
        "line 3: unknown parameter `nonsense`"
    );
    assert_eq!(
        message_of("vote_interest = five\n"),
        "line 1: `five` is not an integer literal"
    );
    assert_eq!(
        message_of("vote_interest =\n"),
        "line 1: `` is not an integer literal"
    );
    assert_eq!(
        message_of("vote_scale = 65536\n"),
        "line 1: 65536 does not fit `vote_scale`'s 2-byte width"
    );
    assert_eq!(
        message_of("custodian_fee = 18446744073709551616\n"),
        "line 1: `18446744073709551616` is not an integer literal"
    );
    assert_eq!(
        message_of("scoring_matrix = [1, 2\n"),
        "line 1: a byte list must be enclosed in `[` and `]`"
    );
    assert_eq!(
        message_of("scoring_matrix = [\n"),
        "line 1: a byte list must be enclosed in `[` and `]`"
    );
    assert_eq!(
        message_of("scoring_matrix = [1, x, 256]\n"),
        "line 1: `x` is not a byte value"
    );
    assert_eq!(
        message_of("scoring_matrix = [1, 256, x]\n"),
        "line 1: `256` does not fit one byte"
    );
    assert_eq!(
        message_of("scoring_matrix = []\n"),
        "line 1: `scoring_matrix` is 5 bytes wide, but 0 were given"
    );
    assert_eq!(
        message_of("vm_fuel_limit = {\n}\n"),
        "line 1: `vm_fuel_limit` is literal-only and does not accept a program"
    );
    assert_eq!(
        message_of("vote_interest = {\nPUSH @nothing_such\n}\n"),
        "line 2: unknown parameter `@nothing_such`"
    );
    assert_eq!(
        message_of("vote_interest = {\n@\n}\n"),
        "line 2: unknown parameter `@`"
    );
    assert_eq!(
        message_of("vote_interest = {\nRET\ngetparam 1\n}\n"),
        "line 3: GETPARAM takes a parameter identifier and an argument count"
    );
    assert_eq!(
        message_of("vote_interest = {\nGETPARAM 300, 0\n}\n"),
        "line 2: GETPARAM names identifier 300, which the registry does not allocate"
    );
    assert_eq!(
        message_of("vote_interest = {\nGETPARAM @registration_price 0 ; none\n}\n"),
        "line 2: GETPARAM declares 0 argument(s) for identifier 24, but the registry records arity 1"
    );
    assert_eq!(
        message_of("vote_interest = {\nGETPARAM x, 0\n}\n"),
        "line 2: malformed operand"
    );
    assert_eq!(
        message_of("vote_interest = 1\nvote_interest = 2\n"),
        "line 2: cannot frame this entry — the parameter is already set, or the override set no longer fits one chain-config payload"
    );
    assert_eq!(
        message_of("required_support = 0\n"),
        "the declared value for identifier 10 is outside the structural bound this build can honour"
    );
}

#[test]
fn every_refusal_is_described() {
    let described = |error: ChainConfigError| describe(&error);
    assert_eq!(
        described(ChainConfigError::MalformedContent),
        "the framed content is malformed"
    );
    assert_eq!(
        described(ChainConfigError::UnknownParameter(0xFA)),
        "key byte 0xFA names a parameter the registry does not allocate"
    );
    assert_eq!(
        described(ChainConfigError::UnknownParameter(9)),
        "key byte 0x09 names a parameter the registry does not allocate"
    );
    assert_eq!(
        described(ChainConfigError::ValueWidthMismatch(7)),
        "the literal for identifier 7 does not match its declared width"
    );
    assert_eq!(
        described(ChainConfigError::BytecodeNotPermitted(29)),
        "identifier 29 is literal-only and does not accept a program"
    );
    assert_eq!(
        described(ChainConfigError::BoundViolation(10)),
        "the declared value for identifier 10 is outside the structural bound this build can honour"
    );
    assert_eq!(
        described(ChainConfigError::DurableLocked),
        "the configuration is durably locked"
    );
    assert_eq!(
        described(ChainConfigError::NotLoaded),
        "no configuration is loaded"
    );
}

#[test]
fn sealing_decides_what_encoding_comes_to() {
    let overrides = parse("\nvote_interest = 3\n", &assemble).expect("parses");
    assert_eq!(overrides.len(), 1);

    let refused = finish(&overrides, Sealing::EntryRefused(0), &PLATFORM).expect_err("refused");
    assert_eq!(refused.line, 2);
    let nowhere = finish(&overrides, Sealing::EntryRefused(9), &PLATFORM).expect_err("refused");
    assert_eq!(nowhere.line, 0);
    let unsigned = finish(&overrides, Sealing::KeyRefused, &PLATFORM).expect_err("refused");
    assert_eq!(
        unsigned.rendered(),
        "the signing key was refused by the crypto backend"
    );
    let malformed = finish(&overrides, Sealing::Sealed(None), &PLATFORM).expect_err("refused");
    assert_eq!(malformed.rendered(), "the framed content is malformed");

    let payload = finish(&overrides, seal(&overrides), &PLATFORM).expect("sealed");
    let mut expected = vec![1, 0, identifier_of("vote_interest").expect("named"), 1, 3];
    expected.extend_from_slice(&[0u8; SIGNATURE_SIZE]);
    assert_eq!(payload, expected);
}

#[test]
fn overrides_come_in_input_order_with_their_lines() {
    let overrides = parse(
        "vote_interest = 0X0A\r\n\
         # a comment = 7\r\n\
         registration_price = {\r\n\
         \tGETPARAM @custodian_fee, 0\r\n\
         RET\r\n\
         \t}\t\r\n\
         scoring_matrix=[ 1,2,, 3 ,4,5, ]",
        &assemble,
    )
    .expect("parses");
    assert_eq!(
        overrides,
        vec![
            Override {
                line: 1,
                id: 7,
                value: Value::Literal(vec![10]),
            },
            Override {
                line: 3,
                id: 24,
                value: Value::Program(vec![OP_GETPARAM, 23, 0, OP_RET]),
            },
            Override {
                line: 7,
                id: 17,
                value: Value::Literal(vec![1, 2, 3, 4, 5]),
            },
        ]
    );
}

#[test]
fn the_assembler_is_handed_resolved_text() {
    let handed = RefCell::new(Vec::new());
    let listening = |text: &str| {
        handed.borrow_mut().push(text.to_string());
        Ok(vec![OP_RET])
    };
    parse(
        "vote_interest = {\n  PUSH @vote_scale+@vm_fuel_limit ; @custodian_fee # kept\n\n}\n\
         custodian_fee = {\n}\n",
        &listening,
    )
    .expect("parses");
    assert_eq!(
        *handed.borrow(),
        vec![
            "  PUSH 6+29 ; 23 # kept\n\n".to_string(),
            String::new(),
        ]
    );
}

#[test]
fn the_first_diagnostic_wins() {
    let asked = RefCell::new(0);
    let refusing = |_: &str| {
        *asked.borrow_mut() += 1;
        Err(EncodeError {
            line: 1,
            message: "no".to_string(),
        })
    };
    let source = "vote_interest = {\n}\ncustodian_fee = {\n}\nnonsense\n";
    let error = parse(source, &refusing).expect_err("the assembler refuses");
    assert_eq!((error.line, error.message.as_str()), (2, "no"));
    assert_eq!(*asked.borrow(), 1);

    let error = parse("nonsense\nvote_interest = {\n}\n", &refusing).expect_err("no assignment");
    assert_eq!(error.line, 1);
    assert_eq!(*asked.borrow(), 1);

    let distant = |_: &str| {
        Err(EncodeError {
            line: usize::MAX,
            message: "far".to_string(),
        })
    };
    let error = parse("vote_interest = {\n}\n", &distant).expect_err("the assembler refuses");
    assert_eq!(error.line, usize::MAX);
}

#[test]
fn every_named_parameter_can_be_written_and_read_back() {
    for (name, id) in NAMES {
        assert_eq!(identifier_of(name), Some(id));
        let record = parameter_spec(id).expect("allocated");
        let source = format!("  {name}\t= {} # the default", record.fallback);
        let overrides = parse(&source, &assemble).expect("the default fits its width");
        let bytes = record.fallback.to_le_bytes()[..record.width as usize].to_vec();
        assert_eq!(overrides.len(), 1);
        assert_eq!(overrides[0].id, id);
        assert_eq!(overrides[0].value, Value::Literal(bytes));
        assert!(encode(&source).is_ok());
    }
    assert_eq!(identifier_of(""), None);
    assert_eq!(identifier_of("Vote_interest"), None);
    assert_eq!(identifier_of("vote_interest "), None);
}

#[test]
fn an_override_set_that_no_longer_fits_is_refused_where_it_overflows() {
    let long = |_: &str| Ok(vec![OP_RET; 255]);
    let names = [
        "inter_block_interval_ms",
        "grace_period_window_ms",
        "vote_interest",
        "custodian_fee",
        "registration_price",
        "tx_fee_per_byte_max",
        "replay_block_reward",
        "relay_position_delay",
    ];
    let mut source = String::new();
    for name in names {
        source.push_str(&format!("{name} = {{\n}}\n"));
    }
    let error = encode_with(&source, &long, &seal, &PLATFORM).expect_err("eight do not fit");
    assert_eq!(error.line, 15);
}

#[test]
fn a_comment_in_front_moves_every_line_by_one() {
    let sources = [
        "",
        "vote_interest = 3\n\ncustodian_fee = {\nRET\n}\nscoring_matrix = [1,2,3,4,5]\n",
        "vote_interest",
        "scoring_matrix = [1, x]\n",
        "vote_interest = {\nRET\nGETPARAM 300, 0\n}\n",
        "vote_interest = {\nRET\nPUSH @nothing_such\n}\n",
        "vote_interest = {\nRET\nNOSUCHOP\n}\n",
        "vote_interest = {\nRET\n",
    ];
    for source in sources {
        for comment in ["#", "# a note = {\r", "#\u{2028}}"] {
            let moved = parse(&format!("{comment}\n{source}"), &assemble);
            match parse(source, &assemble) {
                Ok(overrides) => {
                    let expected: Vec<Override> = overrides
                        .into_iter()
                        .map(|entry| Override {
                            line: entry.line + 1,
                            ..entry
                        })
                        .collect();
                    assert_eq!(moved.expect("parses too"), expected);
                }
                Err(error) => {
                    let expected = EncodeError {
                        line: error.line + 1,
                        message: error.message,
                    };
                    assert_eq!(moved.expect_err("refused too"), expected);
                }
            }
        }
    }

    let distant = |_: &str| {
        Err(EncodeError {
            line: usize::MAX,
            message: "far".to_string(),
        })
    };
    let error = parse("#\nvote_interest = {\n}\n", &distant).expect_err("refused");
    assert_eq!(error.line, usize::MAX);
}

#[test]
fn what_encodes_holds_what_was_written() {
    let source = "vote_scale = 7\nvote_interest = {\nPUSH 9\nRET\n}\ncustodian_fee = 1\n";
    let overrides = parse(source, &assemble).expect("parses");
    let payload = walk(encode(source).expect("encodes")).expect("well framed");
    assert_eq!(payload.entries().len(), overrides.len());
    for (entry, written) in payload.entries().iter().zip(&overrides) {
        assert_eq!(entry.parameter_id, written.id);
        let (bytecode, value) = match &written.value {
            Value::Literal(bytes) => (false, bytes),
            Value::Program(code) => (true, code),
        };
        assert_eq!(entry.bytecode, bytecode);
        assert_eq!(&entry.value, value);
    }
}
