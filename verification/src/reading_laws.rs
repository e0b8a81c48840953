//! Laws of reading: what a parameter reads as, entry by entry of the content.

use vstd::prelude::*;

use crate::acceptance::ChainConfigError;
use crate::configuration::{
    ChainConfigTrait, ChainConfiguration, ConfigChangeSink, ModuleModel,
};
use crate::framing::{EntryModel, FramedPayload, PayloadModel};
use crate::registry::{DefaultValue, ParameterSpec, SCORING_MATRIX_LEN};
use crate::resolution::{ActiveConfig, Budget, Commitment, ConfigModel, ProgramOutcome};

verus! {

/// Whether the entry at `i` is the one that overrides `id`.
pub open spec fn overrides_at(entries: Seq<EntryModel>, id: u8, i: int) -> bool {
    &&& 0 <= i < entries.len()
    &&& entries[i].parameter_id == id
    &&& forall|j: int| 0 <= j < i ==> (#[trigger] entries[j]).parameter_id != id
}

/// Whether no entry overrides `id`.
pub open spec fn overrides_nowhere(entries: Seq<EntryModel>, id: u8) -> bool {
    forall|j: int| 0 <= j < entries.len() ==> (#[trigger] entries[j]).parameter_id != id
}

proof fn lemma_override_at(entries: Seq<EntryModel>, id: u8, i: int)
    requires
        overrides_at(entries, id, i),
    ensures
        crate::framing::find_entry(entries, id) == Some(entries[i]),
    decreases i,
{
    if i > 0 {
        let rest = entries.drop_first();
        assert(entries[0].parameter_id != id);
        assert forall|j: int| 0 <= j < i - 1 implies (
        #[trigger] rest[j]).parameter_id != id by {
            assert(rest[j] == entries[j + 1]);
        }
        lemma_override_at(rest, id, i - 1);
    }
}

proof fn lemma_override_nowhere(entries: Seq<EntryModel>, id: u8)
    requires
        overrides_nowhere(entries, id),
    ensures
        crate::framing::find_entry(entries, id) is None,
{
    crate::framing::lemma_find_entry(entries, id);
    if let Some(entry) = crate::framing::find_entry(entries, id) {
        let i = choose|i: int| 0 <= i < entries.len() && entries[i] == entry;
        assert(entries[i].parameter_id != id);
    }
}

/// A parameter that no entry overrides resolves to its code-baked default.
pub proof fn law_without_an_entry_the_default_stands<
    R: Fn(&[u8], &[u64], Budget) -> ProgramOutcome,
>(config: ConfigModel, id: u8, args: Seq<u64>, budget: Budget, run: R, value: u64)
    requires
        1 <= id <= 29,
        config.resolves(ParameterSpec::registered(id), args, budget, run, value),
        overrides_nowhere(config.entries, id),
    ensures
        value == ParameterSpec::registered(id).fallback,
{
    lemma_override_nowhere(config.entries, id);
    crate::registry::law_registry_is_dense(id);
}

/// A literal of the declared width is the number that its bytes write.
pub proof fn law_a_literal_is_its_number<R: Fn(&[u8], &[u64], Budget) -> ProgramOutcome>(
    config: ConfigModel,
    id: u8,
    args: Seq<u64>,
    budget: Budget,
    run: R,
    value: u64,
    i: int,
)
    requires
        1 <= id <= 29,
        config.resolves(ParameterSpec::registered(id), args, budget, run, value),
        overrides_at(config.entries, id, i),
        !config.entries[i].bytecode,
        config.entries[i].value.len() == ParameterSpec::registered(id).width,
    ensures
        value == crate::bytes::le_value(config.entries[i].value),
{
    lemma_override_at(config.entries, id, i);
    lemma_fits(id, config.entries[i].value);
}

proof fn lemma_fits(id: u8, bytes: Seq<u8>)
    requires
        1 <= id <= 29,
        bytes.len() == ParameterSpec::registered(id).width,
    ensures
        crate::bytes::le_value(bytes) <= u64::MAX,
        crate::bytes::low_eight(bytes) == bytes,
        bytes.len() <= 4 ==> crate::bytes::le_value(bytes) <= u32::MAX,
        bytes.len() <= 2 ==> crate::bytes::le_value(bytes) <= u16::MAX,
        bytes.len() <= 1 ==> crate::bytes::le_value(bytes) <= u8::MAX,
{
    crate::registry::law_registry_is_dense(id);
    crate::bytes::lemma_le_value_bound(bytes);
    crate::bytes::lemma_pow256_bounds();
    crate::bytes::lemma_pow256_monotonic(bytes.len(), 8);
    if bytes.len() <= 4 {
        crate::bytes::lemma_pow256_monotonic(bytes.len(), 4);
    }
    if bytes.len() <= 2 {
        crate::bytes::lemma_pow256_monotonic(bytes.len(), 2);
    }
    if bytes.len() <= 1 {
        crate::bytes::lemma_pow256_monotonic(bytes.len(), 1);
    }
}

/// An entry in a form that the registry does not permit is read past: the default stands.
pub proof fn law_an_unfit_entry_is_read_past<R: Fn(&[u8], &[u64], Budget) -> ProgramOutcome>(
    config: ConfigModel,
    id: u8,
    args: Seq<u64>,
    budget: Budget,
    run: R,
    value: u64,
    i: int,
)
    requires
        1 <= id <= 29,
        config.resolves(ParameterSpec::registered(id), args, budget, run, value),
        overrides_at(config.entries, id, i),
        config.entries[i].bytecode ==> !ParameterSpec::registered(id).bytecode_allowed,
        !config.entries[i].bytecode ==> config.entries[i].value.len() != ParameterSpec::registered(
            id,
        ).width,
    ensures
        value == ParameterSpec::registered(id).fallback,
{
    lemma_override_at(config.entries, id, i);
    crate::registry::law_registry_is_dense(id);
}

/// A program is run once, as it stands in the content, on the arguments and the budget that it
/// is given. The number that it completes with is the value, whatever it is, but for a fill
/// threshold above 100 and a block-size limit not above the header. Then, and where the program
/// does not complete, the value is the default.
pub proof fn law_a_program_is_what_it_completes_with<
    R: Fn(&[u8], &[u64], Budget) -> ProgramOutcome,
>(config: ConfigModel, id: u8, args: Seq<u64>, budget: Budget, run: R, value: u64, i: int)
    requires
        1 <= id <= 29,
        config.resolves(ParameterSpec::registered(id), args, budget, run, value),
        overrides_at(config.entries, id, i),
        config.entries[i].bytecode,
        ParameterSpec::registered(id).bytecode_allowed,
    ensures
        exists|program: &[u8], handed: &[u64], outcome: ProgramOutcome|
            {
                &&& program@ == config.entries[i].value
                &&& handed@ == args
                &&& #[trigger] call_ensures(run, (program, handed, budget), outcome)
                &&& match outcome {
                    ProgramOutcome::Completed(number) => value == if (id == 20 && number > 100)
                        || (id == 3 && number <= config.platform.header_size) {
                        ParameterSpec::registered(id).fallback
                    } else {
                        number
                    },
                    _ => value == ParameterSpec::registered(id).fallback,
                }
            },
{
    lemma_override_at(config.entries, id, i);
    crate::registry::law_registry_is_dense(id);
    let record = ParameterSpec::registered(id);
    let (first, second) = choose|first: ProgramOutcome, second: ProgramOutcome|
        #[trigger] config.runs_report(record, args, budget, run, first, second) && value
            == config.value_of(record, first, second);
    let (program, handed) = choose|program: &[u8], handed: &[u64]|
        program@ == config.entries[i].value && handed@ == args && #[trigger] call_ensures(
            run,
            (program, handed, budget),
            first,
        );
    assert(call_ensures(run, (program, handed, budget), first));
}

/// Every number that a program completes with stands under a parameter without a bound, and
/// under a bounded one exactly when a declared number would, the upper end of the block-size
/// limit aside.
pub proof fn law_completed_numbers_stand(
    config: ConfigModel,
    id: u8,
    number: u64,
    second: ProgramOutcome,
    i: int,
)
    requires
        1 <= id <= 29,
        overrides_at(config.entries, id, i),
        config.entries[i].bytecode,
        ParameterSpec::registered(id).bytecode_allowed,
    ensures
        ({
            let value = config.value_of(
                ParameterSpec::registered(id),
                ProgramOutcome::Completed(number),
                second,
            );
            &&& id != 3 && id != 20 ==> value == number
            &&& id == 20 ==> value == if number <= 100 {
                number
            } else {
                80
            }
            &&& id == 3 ==> value == if number > config.platform.header_size {
                number
            } else {
                2016
            }
        }),
{
    lemma_override_at(config.entries, id, i);
}

/// An accessor resolves its parameter on a fresh budget, of as many units as the content
/// allows.
pub proof fn law_an_accessor_starts_a_fresh_budget<
    R: Fn(&[u8], &[u64], Budget) -> ProgramOutcome,
>(config: ActiveConfig, id: u8, args: &[u64], run: R, value: u64, limit: u32)
    requires
        1 <= id <= 29,
        call_ensures(ActiveConfig::resolve::<R>, (&config, id, args, &run), value),
        call_ensures(ActiveConfig::fuel_limit, (&config,), limit),
    ensures
        config@.reads(id, args@, run, value),
        config@.resolves(
            ParameterSpec::registered(id),
            args@,
            Budget::Fresh(limit),
            run,
            value,
        ),
{
}

/// What an accessor reads is what resolution on a fresh budget comes to.
pub proof fn law_reading_is_resolving<R: Fn(&[u8], &[u64], Budget) -> ProgramOutcome>(
    config: ConfigModel,
    id: u8,
    args: Seq<u64>,
    run: R,
    value: u64,
)
    requires
        config.reads(id, args, run, value),
    ensures
        config.resolves(
            ParameterSpec::registered(id),
            args,
            Budget::Fresh(config.fuel_limit()),
            run,
            value,
        ),
{
}

/// Resolution on a budget is what the laws of reading speak of.
pub proof fn law_resolving_gives_the_value<R: Fn(&[u8], &[u64], Budget) -> ProgramOutcome>(
    config: ActiveConfig,
    record: ParameterSpec,
    args: &[u64],
    budget: Budget,
    run: R,
    value: u64,
)
    requires
        call_ensures(ActiveConfig::resolve_with::<R>, (&config, &record, args, budget, &run), value),
    ensures
        config@.resolves(record, args@, budget, run, value),
{
}

/// The host answers the one function that resolves a parameter, for an allocated parameter and
/// as many arguments as it takes, and nothing else. The answer is resolved on what is left of
/// the budget of the program that asked.
pub proof fn law_what_the_host_answers<R: Fn(&[u8], &[u64], Budget) -> ProgramOutcome>(
    config: ActiveConfig,
    func_id: u16,
    selector: u8,
    args: &[u64],
    run: R,
    answer: Option<u64>,
)
    requires
        call_ensures(ActiveConfig::call::<R>, (&config, func_id, selector, args, &run), answer),
    ensures
        answer is Some <==> {
            &&& func_id == config@.platform.resolve_parameter
            &&& 1 <= selector <= 29
            &&& selector == 24 ==> args@.len() == 1
            &&& selector != 24 ==> args@.len() == 0
        },
        answer matches Some(value) ==> config@.resolves(
            ParameterSpec::registered(selector),
            args@,
            Budget::Inherited,
            run,
            value,
        ),
{
}

// The budget.

/// The budget is exactly the number that the content declares for it in four bytes, and 20000
/// where the content declares none.
pub proof fn law_the_budget_is_what_is_declared(
    config: ActiveConfig,
    limit: u32,
    shown: u32,
    declared: u64,
    i: int,
)
    requires
        call_ensures(ActiveConfig::fuel_limit, (&config,), limit),
        call_ensures(ActiveConfig::vm_fuel_limit, (&config,), shown),
        call_ensures(ActiveConfig::declared_fuel_limit, (&config,), declared),
        overrides_at(config@.entries, 29, i) || overrides_nowhere(config@.entries, 29),
    ensures
        config@.fuel_limit() == limit,
        shown == limit,
        declared == limit,
        limit == if overrides_at(config@.entries, 29, i) && !config@.entries[i].bytecode
            && config@.entries[i].value.len() == 4 {
            crate::bytes::le_value(config@.entries[i].value)
        } else {
            20_000
        },
{
    if overrides_at(config@.entries, 29, i) {
        lemma_override_at(config@.entries, 29, i);
        if config@.entries[i].value.len() == 4 {
            lemma_fits(29, config@.entries[i].value);
        }
    } else {
        lemma_override_nowhere(config@.entries, 29);
    }
}

/// The budget is what the parameter of the budget resolves to, whatever programs do.
pub proof fn law_the_budget_is_a_parameter(
    config: ConfigModel,
    first: ProgramOutcome,
    second: ProgramOutcome,
)
    ensures
        config.fuel_limit() == config.value_of(ParameterSpec::registered(29), first, second),
{
    if let Some(entry) = config.override_of(29) {
        if entry.value.len() == 4 {
            lemma_fits(29, entry.value);
        }
    }
}

// The accessors.

/// The value of a parameter that no program may override: the number that a literal of the
/// declared width writes, and otherwise the default.
pub proof fn law_a_literal_only_value_is_declared(config: ConfigModel, id: u8, i: int)
    requires
        1 <= id <= 29,
        overrides_at(config.entries, id, i) || overrides_nowhere(config.entries, id),
    ensures
        config.declared_value(id) == if overrides_at(config.entries, id, i)
            && !config.entries[i].bytecode && config.entries[i].value.len()
            == ParameterSpec::registered(id).width {
            crate::bytes::le_value(config.entries[i].value)
        } else {
            ParameterSpec::registered(id).fallback as nat
        },
{
    if overrides_at(config.entries, id, i) {
        lemma_override_at(config.entries, id, i);
        if config.entries[i].value.len() == ParameterSpec::registered(id).width {
            lemma_fits(id, config.entries[i].value);
        }
    } else {
        lemma_override_nowhere(config.entries, id);
    }
}

/// Whether `value` is what a parameter without an argument reads as, or `most` where that is
/// more.
pub open spec fn reads_up_to<R: Fn(&[u8], &[u64], Budget) -> ProgramOutcome>(
    config: ConfigModel,
    id: u8,
    run: R,
    value: nat,
    most: nat,
) -> bool {
    exists|exact: u64|
        #[trigger] config.reads(id, Seq::empty(), run, exact) && value == if exact <= most {
            exact as nat
        } else {
            most
        }
}

/// Each accessor reads its own parameter, and turns what its type cannot hold into the most
/// that it can.
pub proof fn law_each_accessor_reads_its_parameter<
    R: Fn(&[u8], &[u64], Budget) -> ProgramOutcome,
>(config: ActiveConfig, run: R)
    ensures
        forall|value: u32|
            call_ensures(ActiveConfig::inter_block_interval_ms::<R>, (&config, &run), value) ==> reads_up_to(
                config@,
                1,
                run,
                value as nat,
                0xFFFF_FFFF,
            ),
        forall|value: u32|
            call_ensures(ActiveConfig::grace_period_window_ms::<R>, (&config, &run), value) ==> reads_up_to(
                config@,
                2,
                run,
                value as nat,
                0xFFFF_FFFF,
            ),
        forall|value: u16|
            call_ensures(ActiveConfig::block_size_limit::<R>, (&config, &run), value) ==> reads_up_to(
                config@,
                3,
                run,
                value as nat,
                0xFFFF,
            ),
        forall|value: u8|
            call_ensures(ActiveConfig::vote_interest::<R>, (&config, &run), value) ==> reads_up_to(
                config@,
                7,
                run,
                value as nat,
                0xFF,
            ),
        forall|value: u32|
            call_ensures(ActiveConfig::parent_recovery_per_head_retry_interval_ms::<R>, (&config, &run), value) ==> reads_up_to(
                config@,
                8,
                run,
                value as nat,
                0xFFFF_FFFF,
            ),
        forall|value: u32|
            call_ensures(ActiveConfig::parent_recovery_min_emit_interval_ms::<R>, (&config, &run), value) ==> reads_up_to(
                config@,
                9,
                run,
                value as nat,
                0xFFFF_FFFF,
            ),
        forall|value: u8|
            call_ensures(ActiveConfig::block_fill_threshold_percent::<R>, (&config, &run), value) ==> reads_up_to(
                config@,
                20,
                run,
                value as nat,
                0xFF,
            ),
        forall|value: u32|
            call_ensures(ActiveConfig::mempool_replenishment_interval_ms::<R>, (&config, &run), value) ==> reads_up_to(
                config@,
                22,
                run,
                value as nat,
                0xFFFF_FFFF,
            ),
        forall|value: u64|
            call_ensures(ActiveConfig::custodian_fee::<R>, (&config, &run), value) ==> reads_up_to(
                config@,
                23,
                run,
                value as nat,
                0xFFFF_FFFF_FFFF_FFFF,
            ),
        forall|value: u64|
            call_ensures(ActiveConfig::tx_fee_per_byte_min::<R>, (&config, &run), value) ==> reads_up_to(
                config@,
                25,
                run,
                value as nat,
                0xFFFF_FFFF_FFFF_FFFF,
            ),
        forall|value: u64|
            call_ensures(ActiveConfig::tx_fee_per_byte_max::<R>, (&config, &run), value) ==> reads_up_to(
                config@,
                26,
                run,
                value as nat,
                0xFFFF_FFFF_FFFF_FFFF,
            ),
        forall|value: u32|
            call_ensures(ActiveConfig::deviation_replay_insertion_delay_ms::<R>, (&config, &run), value) ==> reads_up_to(
                config@,
                27,
                run,
                value as nat,
                0xFFFF_FFFF,
            ),
        forall|value: u64|
            call_ensures(ActiveConfig::replay_block_reward::<R>, (&config, &run), value) ==> reads_up_to(
                config@,
                28,
                run,
                value as nat,
                0xFFFF_FFFF_FFFF_FFFF,
            ),
        forall|value: u16|
            call_ensures(ActiveConfig::echo_request_minimal_interval::<R>, (&config, &run), value) ==> reads_up_to(
                config@,
                11,
                run,
                value as nat,
                0xFFFF,
            ),
        forall|value: u8|
            call_ensures(ActiveConfig::echo_messages_target_interval::<R>, (&config, &run), value) ==> reads_up_to(
                config@,
                12,
                run,
                value as nat,
                0xFF,
            ),
        forall|value: u8|
            call_ensures(ActiveConfig::echo_gathering_timeout::<R>, (&config, &run), value) ==> reads_up_to(
                config@,
                13,
                run,
                value as nat,
                0xFF,
            ),
        forall|value: u16|
            call_ensures(ActiveConfig::delay_between_tx_packets::<R>, (&config, &run), value) ==> reads_up_to(
                config@,
                14,
                run,
                value as nat,
                0xFFFF,
            ),
        forall|value: u8|
            call_ensures(ActiveConfig::delay_between_tx_messages::<R>, (&config, &run), value) ==> reads_up_to(
                config@,
                15,
                run,
                value as nat,
                0xFF,
            ),
        forall|value: u8|
            call_ensures(ActiveConfig::relay_position_delay::<R>, (&config, &run), value) ==> reads_up_to(
                config@,
                16,
                run,
                value as nat,
                0xFF,
            ),
        forall|value: u8|
            call_ensures(ActiveConfig::retry_interval_for_missing_packets::<R>, (&config, &run), value) ==> reads_up_to(
                config@,
                18,
                run,
                value as nat,
                0xFF,
            ),
        forall|value: u16|
            call_ensures(ActiveConfig::tx_maximum_random_delay::<R>, (&config, &run), value) ==> reads_up_to(
                config@,
                19,
                run,
                value as nat,
                0xFFFF,
            ),
{
    assert forall|value: u64|
        call_ensures(ActiveConfig::custodian_fee::<R>, (&config, &run), value) implies reads_up_to(
        config@,
        23,
        run,
        value as nat,
        0xFFFF_FFFF_FFFF_FFFF,
    ) by {
        assert(config@.reads(23, Seq::empty(), run, value));
    }
    assert forall|value: u64|
        call_ensures(ActiveConfig::tx_fee_per_byte_min::<R>, (&config, &run), value) implies reads_up_to(
        config@,
        25,
        run,
        value as nat,
        0xFFFF_FFFF_FFFF_FFFF,
    ) by {
        assert(config@.reads(25, Seq::empty(), run, value));
    }
    assert forall|value: u64|
        call_ensures(ActiveConfig::tx_fee_per_byte_max::<R>, (&config, &run), value) implies reads_up_to(
        config@,
        26,
        run,
        value as nat,
        0xFFFF_FFFF_FFFF_FFFF,
    ) by {
        assert(config@.reads(26, Seq::empty(), run, value));
    }
    assert forall|value: u64|
        call_ensures(ActiveConfig::replay_block_reward::<R>, (&config, &run), value) implies reads_up_to(
        config@,
        28,
        run,
        value as nat,
        0xFFFF_FFFF_FFFF_FFFF,
    ) by {
        assert(config@.reads(28, Seq::empty(), run, value));
    }
}

/// The registration price is read with the number of registered nodes as its argument.
pub proof fn law_the_registration_price_reads_the_node_count<
    R: Fn(&[u8], &[u64], Budget) -> ProgramOutcome,
>(config: ActiveConfig, registered_nodes: u32, run: R, value: u64)
    requires
        call_ensures(
            ActiveConfig::registration_price::<R>,
            (&config, registered_nodes, &run),
            value,
        ),
    ensures
        config@.reads(24, seq![registered_nodes as u64], run, value),
{
}

/// The accessors of literal-only numbers read what the content declares. The required support
/// is never more than the signatures that the chain aggregates, and the vote scale never zero.
pub proof fn law_the_literal_only_accessors(
    config: ActiveConfig,
    outputs: u8,
    signatures: u8,
    scale: u16,
    support: u8,
    length: u16,
)
    requires
        call_ensures(ActiveConfig::max_utxo_outputs, (&config,), outputs),
        call_ensures(ActiveConfig::max_aggregated_signatures, (&config,), signatures),
        call_ensures(ActiveConfig::vote_scale, (&config,), scale),
        call_ensures(ActiveConfig::required_support, (&config,), support),
        call_ensures(ActiveConfig::active_chain_length, (&config,), length),
    ensures
        outputs == config@.declared_value(4),
        signatures == config@.declared_value(5),
        config@.declared_value(6) != 0 ==> scale == config@.declared_value(6),
        config@.declared_value(6) == 0 ==> scale == 1000,
        config@.declared_value(10) <= config@.declared_value(5) ==> support
            == config@.declared_value(10),
        config@.declared_value(10) > config@.declared_value(5) ==> support
            == config@.declared_value(5),
        length == config@.declared_value(21),
{
    lemma_declared_fits(config@, 4);
    lemma_declared_fits(config@, 5);
    lemma_declared_fits(config@, 6);
    lemma_declared_fits(config@, 10);
    lemma_declared_fits(config@, 21);
}

proof fn lemma_declared_fits(config: ConfigModel, id: u8)
    requires
        1 <= id <= 29,
    ensures
        ParameterSpec::registered(id).width == 1 ==> config.declared_value(id) <= u8::MAX,
        ParameterSpec::registered(id).width == 2 ==> config.declared_value(id) <= u16::MAX,
{
    if let Some(entry) = config.override_of(id) {
        if entry.value.len() == ParameterSpec::registered(id).width {
            lemma_fits(id, entry.value);
        }
    }
}

/// The scoring matrix is carried verbatim: the five bytes of a literal, in order, and otherwise
/// the five of the default.
pub proof fn law_the_scoring_matrix_is_verbatim(
    config: ActiveConfig,
    matrix: [u8; SCORING_MATRIX_LEN],
    i: int,
)
    requires
        call_ensures(ActiveConfig::scoring_matrix, (&config,), matrix),
        overrides_at(config@.entries, 17, i) || overrides_nowhere(config@.entries, 17),
    ensures
        matrix@ == if overrides_at(config@.entries, 17, i) && !config@.entries[i].bytecode
            && config@.entries[i].value.len() == 5 {
            config@.entries[i].value
        } else {
            seq![255u8, 243u8, 65u8, 82u8, 143u8]
        },
{
    let default = seq![255u8, 243u8, 65u8, 82u8, 143u8];
    reveal_with_fuel(crate::bytes::le_bytes, 6);
    assert(crate::bytes::le_bytes(0x8f_5241_f3ff, 5) =~= default);
    law_a_literal_only_value_is_declared(config@, 17, i);
    if overrides_at(config@.entries, 17, i) && config@.entries[i].value.len() == 5 {
        crate::bytes::law_le_verbatim(config@.entries[i].value);
    }
}

/// A handle reads the entries that it was made over, under the commitment that it was made
/// with.
pub proof fn law_a_handle_reads_its_payload(
    framed: &FramedPayload,
    commitment: Commitment,
    platform: crate::acceptance::Platform,
    config: ActiveConfig,
    shown: Commitment,
)
    requires
        call_ensures(ActiveConfig::over, (framed, commitment, platform), config),
        call_ensures(ActiveConfig::commitment, (&config,), shown),
    ensures
        config@.entries == framed@.entries,
        config@.platform == platform,
        shown == commitment,
{
}

// The module.

/// A load is refused as locked exactly when the configuration is durable. Otherwise the answer
/// is that of acceptance, and accepted content takes the place of whatever was held.
pub proof fn law_what_a_load_does(
    state: ModuleModel,
    payload: Option<PayloadModel>,
    commitment: Commitment,
)
    ensures
        ({
            let locked = state.held matches Some((_, Commitment::Durable));
            let verdict = state.load_verdict(payload);
            let after = state.after_load(payload, commitment);
            &&& locked ==> verdict == Err::<(), ChainConfigError>(ChainConfigError::DurableLocked)
            &&& !locked && payload is None ==> verdict == Err::<(), ChainConfigError>(
                ChainConfigError::MalformedContent,
            )
            &&& !locked && payload is Some ==> match payload->0.acceptance(state.platform) {
                Ok(_) => verdict is Ok,
                Err(error) => verdict == Err::<(), ChainConfigError>(error),
            }
            &&& verdict is Ok ==> after.held == Some((payload->0, commitment))
            &&& verdict is Err ==> after.held == state.held
            &&& after.platform == state.platform
            &&& state.is_durable_locked() == locked
        }),
{
}

/// Promotion is refused where nothing is held or the configuration is locked already, and
/// otherwise makes the same content durable. A discard drops tentative content and nothing
/// else.
pub proof fn law_what_promotion_and_discard_do(state: ModuleModel)
    ensures
        ({
            let promoted = state.after_promote();
            let discarded = state.after_discard();
            &&& state.held is None ==> state.promote_verdict() == Err::<(), ChainConfigError>(
                ChainConfigError::NotLoaded,
            ) && promoted == state && discarded == state
            &&& state.held matches Some((payload, Commitment::Durable)) ==> state.promote_verdict()
                == Err::<(), ChainConfigError>(ChainConfigError::DurableLocked) && promoted == state
                && discarded == state
            &&& state.held matches Some((payload, Commitment::Tentative))
                ==> state.promote_verdict() is Ok && promoted.held == Some(
                (payload, Commitment::Durable),
            ) && discarded.held is None && promoted.platform == state.platform
                && discarded.platform == state.platform
        }),
{
}

/// What is held is what is shown: its content region under its own commitment, and a handle
/// over its entries.
pub proof fn law_what_is_held_is_shown(state: ModuleModel, commitment: Commitment)
    ensures
        match state.held {
            None => state.active() is None && state.content_held_as(commitment) is None,
            Some((payload, held_as)) => {
                &&& state.active() matches Some(config) && config.entries == payload.entries
                    && config.commitment == held_as && config.platform == state.platform
                &&& held_as == commitment ==> state.content_held_as(commitment) == Some(
                    payload.payload.take(payload.content_len as int),
                )
                &&& held_as != commitment ==> state.content_held_as(commitment) is None
            },
        },
{
}

/// A sink is told of the configuration that is now current, and of nothing where there is none.
pub proof fn law_what_a_sink_is_told<Sink: ConfigChangeSink>(sink: Sink, after: ModuleModel)
    ensures
        ChainConfiguration::<Sink>::sink_told(sink, after) == match after.held {
            Some((payload, commitment)) => sink.told(
                ConfigModel { entries: payload.entries, commitment, platform: after.platform },
            ),
            None => sink,
        },
{
}

/// A new module holds nothing, on the build that it was made for.
pub proof fn law_a_new_module_holds_nothing<Sink: ConfigChangeSink>(
    sink: Sink,
    platform: crate::acceptance::Platform,
    module: ChainConfiguration<Sink>,
)
    requires
        call_ensures(ChainConfiguration::<Sink>::new, (sink, platform), module),
    ensures
        module.model().held is None,
        module.model().platform == platform,
        module.sink_state() == sink,
{
}

/// What a module shows is what it holds: tentative content as tentative, durable content as
/// durable and locked, and a handle over either.
pub proof fn law_a_module_shows_what_it_holds<'a, Sink: ConfigChangeSink>(
    module: &'a ChainConfiguration<Sink>,
    config: Option<ActiveConfig<'a>>,
    tentative: Option<&'a [u8]>,
    durable: Option<&'a [u8]>,
    locked: bool,
)
    requires
        call_ensures(ChainConfiguration::<Sink>::active_configuration, (module,), config),
        call_ensures(ChainConfiguration::<Sink>::tentative_content, (module,), tentative),
        call_ensures(ChainConfiguration::<Sink>::durable_content, (module,), durable),
        call_ensures(ChainConfiguration::<Sink>::is_durable_locked, (module,), locked),
    ensures
        match module.model().held {
            None => config is None && tentative is None && durable is None && !locked,
            Some((payload, commitment)) => {
                &&& config matches Some(config) && config@.entries == payload.entries
                    && config@.commitment == commitment && config@.platform
                    == module.model().platform
                &&& locked == (commitment == Commitment::Durable)
                &&& commitment == Commitment::Tentative ==> (tentative matches Some(content)
                    && content@ == payload.payload.take(payload.content_len as int)
                    && durable is None)
                &&& commitment == Commitment::Durable ==> (durable matches Some(content)
                    && content@ == payload.payload.take(payload.content_len as int)
                    && tentative is None)
            },
        },
{
}

/// A record whose default is a literal resolves as the registered ones do: to the number of a
/// literal override of its width, and otherwise to its default where no program runs.
pub proof fn law_every_record_resolves_alike<R: Fn(&[u8], &[u64], Budget) -> ProgramOutcome>(
    config: ConfigModel,
    record: ParameterSpec,
    args: Seq<u64>,
    budget: Budget,
    run: R,
    value: u64,
    i: int,
    default: u64,
)
    requires
        config.resolves(record, args, budget, run, value),
        overrides_at(config.entries, record.id, i) || overrides_nowhere(config.entries, record.id),
        record.width <= 8,
    ensures
        overrides_at(config.entries, record.id, i) && !config.entries[i].bytecode
            && config.entries[i].value.len() == record.width ==> value == crate::bytes::le_value(
            config.entries[i].value,
        ),
        record.default == DefaultValue::Literal(default) && (overrides_nowhere(
            config.entries,
            record.id,
        ) || (!config.entries[i].bytecode && config.entries[i].value.len() != record.width) || (
        config.entries[i].bytecode && !record.bytecode_allowed)) ==> value == default,
{
    if overrides_at(config.entries, record.id, i) {
        lemma_override_at(config.entries, record.id, i);
        let bytes = config.entries[i].value;
        if bytes.len() == record.width {
            crate::bytes::lemma_le_value_bound(bytes);
            crate::bytes::lemma_pow256_bounds();
            crate::bytes::lemma_pow256_monotonic(bytes.len(), 8);
        }
    } else {
        lemma_override_nowhere(config.entries, record.id);
    }
}

/// Whether a load takes one state and its sink to another. A locked module refuses, as do
/// content without framing and content that is not accepted, and then nothing changes and the
/// sink is not told. Accepted content is held, and the sink is told once of its configuration.
pub open spec fn loads<Sink: ConfigChangeSink>(
    before: (ModuleModel, Sink),
    payload: Option<PayloadModel>,
    commitment: Commitment,
    verdict: Result<(), ChainConfigError>,
    after: (ModuleModel, Sink),
) -> bool {
    if before.0.held matches Some((_, Commitment::Durable)) {
        after == before && verdict == Err::<(), ChainConfigError>(ChainConfigError::DurableLocked)
    } else {
        match payload {
            None => after == before && verdict == Err::<(), ChainConfigError>(
                ChainConfigError::MalformedContent,
            ),
            Some(payload) => match payload.acceptance(before.0.platform) {
                Err(error) => after == before && verdict == Err::<(), ChainConfigError>(error),
                Ok(_) => {
                    &&& verdict is Ok
                    &&& after.0 == ModuleModel {
                        held: Some((payload, commitment)),
                        platform: before.0.platform,
                    }
                    &&& after.1 == before.1.told(
                        ConfigModel {
                            entries: payload.entries,
                            commitment,
                            platform: before.0.platform,
                        },
                    )
                },
            },
        }
    }
}

/// The payload that a load is handed, as a model.
pub open spec fn handed(payload: Option<FramedPayload>) -> Option<PayloadModel> {
    match payload {
        Some(payload) => Some(payload@),
        None => None,
    }
}

/// Both loads take the module and its sink from one state to the next, each under its own
/// commitment.
pub proof fn law_loading_moves_the_module<Sink: ConfigChangeSink>()
    ensures
        forall|
            module: &mut ChainConfiguration<Sink>,
            payload: Option<FramedPayload>,
            verdict: Result<(), ChainConfigError>,
        |
            #[trigger] call_ensures(
                ChainConfiguration::<Sink>::load_tentative,
                (module, payload),
                verdict,
            ) ==> loads(
                ((*module).model(), (*module).sink_state()),
                handed(payload),
                Commitment::Tentative,
                verdict,
                (final(module).model(), final(module).sink_state()),
            ),
        forall|
            module: &mut ChainConfiguration<Sink>,
            payload: Option<FramedPayload>,
            verdict: Result<(), ChainConfigError>,
        |
            #[trigger] call_ensures(
                ChainConfiguration::<Sink>::load_durable,
                (module, payload),
                verdict,
            ) ==> loads(
                ((*module).model(), (*module).sink_state()),
                handed(payload),
                Commitment::Durable,
                verdict,
                (final(module).model(), final(module).sink_state()),
            ),
{
}

/// Promotion makes tentative content durable, byte for byte, and tells the sink once. It is
/// refused, with nothing changed and nothing told, where there is no tentative content. A
/// discard drops tentative content and nothing else, and tells nobody.
pub proof fn law_promotion_and_discard_move_the_module<Sink: ConfigChangeSink>()
    ensures
        forall|module: &mut ChainConfiguration<Sink>, verdict: Result<(), ChainConfigError>|
            #[trigger] call_ensures(
                ChainConfiguration::<Sink>::promote_durable,
                (module,),
                verdict,
            ) ==> {
                let before = (*module).model();
                let after = final(module).model();
                match before.held {
                    None => after == before && final(module).sink_state() == (*module).sink_state()
                        && verdict == Err::<(), ChainConfigError>(ChainConfigError::NotLoaded),
                    Some((_, Commitment::Durable)) => after == before
                        && final(module).sink_state() == (*module).sink_state() && verdict == Err::<
                        (),
                        ChainConfigError,
                    >(ChainConfigError::DurableLocked),
                    Some((payload, Commitment::Tentative)) => {
                        &&& verdict is Ok
                        &&& after.held == Some((payload, Commitment::Durable))
                        &&& after.platform == before.platform
                        &&& final(module).sink_state() == (*module).sink_state().told(
                            ConfigModel {
                                entries: payload.entries,
                                commitment: Commitment::Durable,
                                platform: before.platform,
                            },
                        )
                    },
                }
            },
        forall|module: &mut ChainConfiguration<Sink>|
            #[trigger] call_ensures(
                ChainConfiguration::<Sink>::discard_tentative,
                (module,),
                (),
            ) ==> {
                let before = (*module).model();
                let after = final(module).model();
                &&& after.platform == before.platform
                &&& after.held == match before.held {
                    Some((_, Commitment::Tentative)) => None,
                    held => held,
                }
                &&& final(module).sink_state() == (*module).sink_state()
            },
{
}

} // verus!
