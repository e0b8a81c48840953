//! What holds of the configuration as a whole.

use vstd::prelude::*;

use crate::acceptance::{ChainConfigError, Platform};
use crate::configuration::ModuleModel;
use crate::framing::{EntryModel, PayloadModel};
use crate::parameter;
use crate::registry::{DefaultValue, ParameterSpec, VM_FUEL_LIMIT_MAX};
use crate::resolution::{Budget, Commitment, ConfigModel, ProgramOutcome};

verus! {

// Acceptance.

/// Every code-baked default satisfies the bound of its own parameter.
pub proof fn law_defaults_satisfy_their_bounds(id: u8, platform: Platform)
    requires
        ParameterSpec::allocates(id),
        platform.honours_defaults(),
    ensures
        platform.admits(id, ParameterSpec::registered(id).fallback as nat),
        ParameterSpec::registered(id).default matches DefaultValue::Literal(value)
            ==> platform.admits(id, value as nat),
{
    crate::registry::law_registry_is_dense(id);
}

/// A build that cannot honour the code-baked defaults is one whose bounds refuse a default:
/// there is no other condition on a build.
pub proof fn law_only_such_builds_honour_the_defaults(platform: Platform)
    requires
        forall|id: u8| #[trigger]
            ParameterSpec::allocates(id) ==> platform.admits(
                id,
                ParameterSpec::registered(id).fallback as nat,
            ),
    ensures
        platform.honours_defaults(),
{
    assert(ParameterSpec::allocates(parameter::BLOCK_SIZE_LIMIT));
    assert(ParameterSpec::allocates(parameter::MAX_AGGREGATED_SIGNATURES));
}

/// The signature has no say in acceptance: payloads of one length that the walk found to hold
/// the same entries in content regions of one length are answered alike, and what is answered
/// is that length.
pub proof fn law_the_signature_has_no_say(
    one: PayloadModel,
    other: PayloadModel,
    platform: Platform,
)
    requires
        one.well_framed(),
        one.payload.len() == other.payload.len(),
        one.content_len == other.content_len,
        one.entries == other.entries,
    ensures
        one.acceptance(platform) == other.acceptance(platform),
        one.acceptance(platform) matches Ok(len) ==> len == one.content_len && len == one.content(
        ).len(),
{
}

/// Accepted content fits the retention buffer, names allocated parameters only, in a
/// form that each of them permits, and declares only values within bounds.
pub proof fn law_accepted_content_conforms(payload: PayloadModel, platform: Platform, i: int)
    requires
        payload.acceptance(platform) is Ok,
        0 <= i < payload.entries.len(),
    ensures
        payload.payload.len() <= platform.max_payload_size,
        ({
            let entry = payload.entries[i];
            let record = ParameterSpec::registered(entry.parameter_id);
            &&& ParameterSpec::allocates(entry.parameter_id)
            &&& entry.bytecode ==> record.bytecode_allowed
            &&& !entry.bytecode ==> entry.value.len() == record.width && platform.admits(
                entry.parameter_id,
                entry.number(),
            )
        }),
{
    let conformance = payload.entries.map_values(|entry: EntryModel| entry.conformance_fault());
    let bounds = payload.entries.map_values(|entry: EntryModel| entry.bound_fault(platform));
    crate::acceptance::lemma_first_fault(conformance);
    crate::acceptance::lemma_first_fault(bounds);
    assert(conformance[i] is None);
    assert(bounds[i] is None);
}

/// Content that names an unallocated identifier is refused, never skipped.
pub proof fn law_unknown_keys_are_rejected(payload: PayloadModel, platform: Platform, i: int)
    requires
        0 <= i < payload.entries.len(),
        !ParameterSpec::allocates(payload.entries[i].parameter_id),
    ensures
        payload.acceptance(platform) is Err,
{
    if payload.acceptance(platform) is Ok {
        law_accepted_content_conforms(payload, platform, i);
    }
}

/// Where every entry before it conforms, an unallocated identifier is what the content
/// is refused for, and the refusal carries its key byte.
pub proof fn law_the_refusal_names_the_unknown_key(
    payload: PayloadModel,
    platform: Platform,
    i: int,
)
    requires
        payload.payload.len() <= platform.max_payload_size,
        0 <= i < payload.entries.len(),
        !ParameterSpec::allocates(payload.entries[i].parameter_id),
        forall|j: int|
            0 <= j < i ==> (#[trigger] payload.entries[j]).conformance_fault() is None,
    ensures
        payload.acceptance(platform) == Err::<usize, ChainConfigError>(
            ChainConfigError::UnknownParameter(payload.entries[i].key_byte),
        ),
{
    let faults = payload.entries.map_values(|entry: EntryModel| entry.conformance_fault());
    lemma_first_fault_at(faults, i);
}

proof fn lemma_first_fault_at(faults: Seq<Option<ChainConfigError>>, i: int)
    requires
        0 <= i < faults.len(),
        faults[i] is Some,
        forall|j: int| 0 <= j < i ==> #[trigger] faults[j] is None,
    ensures
        crate::acceptance::first_fault(faults) == faults[i],
    decreases i,
{
    if i > 0 {
        let rest = faults.drop_first();
        assert forall|j: int| 0 <= j < i - 1 implies #[trigger] rest[j] is None by {
            assert(rest[j] == faults[j + 1]);
        }
        lemma_first_fault_at(rest, i - 1);
    }
}

/// Content that overrides nothing is accepted, whatever the build.
pub proof fn law_the_empty_override_set_is_accepted(payload: PayloadModel, platform: Platform)
    requires
        payload.entries.len() == 0,
        payload.payload.len() <= platform.max_payload_size,
    ensures
        payload.acceptance(platform) == Ok::<usize, ChainConfigError>(
            payload.content_len as usize,
        ),
{
}

/// Acceptance runs no program: contents that differ in nothing but the bytes of their
/// programs are answered alike, as long as both fit the retention buffer or neither does.
/// What an acceptance answers is the length of the content region.
pub proof fn law_acceptance_ignores_programs(
    one: PayloadModel,
    other: PayloadModel,
    platform: Platform,
)
    requires
        one.payload.len() <= platform.max_payload_size <==> other.payload.len()
            <= platform.max_payload_size,
        one.entries.len() == other.entries.len(),
        forall|i: int|
            #![trigger one.entries[i]]
            #![trigger other.entries[i]]
            0 <= i < one.entries.len() ==> {
                let a = one.entries[i];
                let b = other.entries[i];
                &&& a.key_byte == b.key_byte
                &&& a.parameter_id == b.parameter_id
                &&& a.bytecode == b.bytecode
                &&& !a.bytecode ==> a.value == b.value
            },
    ensures
        one.acceptance(platform) is Ok <==> other.acceptance(platform) is Ok,
        one.acceptance(platform) is Err ==> one.acceptance(platform) == other.acceptance(platform),
        one.content_len == other.content_len ==> one.acceptance(platform) == other.acceptance(
            platform,
        ),
{
    assert(one.entries.map_values(|entry: EntryModel| entry.conformance_fault())
        =~= other.entries.map_values(|entry: EntryModel| entry.conformance_fault()));
    assert(one.entries.map_values(|entry: EntryModel| entry.bound_fault(platform))
        =~= other.entries.map_values(|entry: EntryModel| entry.bound_fault(platform)));
    lemma_same_but_for_programs(one.entries, other.entries, parameter::TX_FEE_PER_BYTE_MIN);
    lemma_same_but_for_programs(one.entries, other.entries, parameter::TX_FEE_PER_BYTE_MAX);
}

proof fn lemma_same_but_for_programs(one: Seq<EntryModel>, other: Seq<EntryModel>, id: u8)
    requires
        one.len() == other.len(),
        forall|i: int|
            #![trigger one[i]]
            #![trigger other[i]]
            0 <= i < one.len() ==> {
                &&& one[i].parameter_id == other[i].parameter_id
                &&& one[i].bytecode == other[i].bytecode
                &&& !one[i].bytecode ==> one[i].value == other[i].value
            },
    ensures
        match (crate::framing::find_entry(one, id), crate::framing::find_entry(other, id)) {
            (Some(a), Some(b)) => a.bytecode == b.bytecode && (!a.bytecode ==> a.value
                == b.value),
            (None, None) => true,
            _ => false,
        },
    decreases one.len(),
{
    if one.len() > 0 && one[0].parameter_id != id {
        let rest = one.drop_first();
        let other_rest = other.drop_first();
        assert forall|i: int| 0 <= i < rest.len() implies {
            &&& (#[trigger] rest[i]).parameter_id == other_rest[i].parameter_id
            &&& rest[i].bytecode == other_rest[i].bytecode
            &&& !rest[i].bytecode ==> rest[i].value == other_rest[i].value
        } by {
            assert(rest[i] == one[i + 1]);
            assert(other_rest[i] == other[i + 1]);
        }
        assert forall|i: int| 0 <= i < rest.len() implies {
            &&& rest[i].parameter_id == (#[trigger] other_rest[i]).parameter_id
            &&& rest[i].bytecode == other_rest[i].bytecode
            &&& !rest[i].bytecode ==> rest[i].value == other_rest[i].value
        } by {
            assert(rest[i] == one[i + 1]);
            assert(other_rest[i] == other[i + 1]);
        }
        lemma_same_but_for_programs(rest, other_rest, id);
    }
}

// Resolution.

/// A parameter that the content does not override reads as its code-baked default,
/// whatever programs do.
pub proof fn law_absent_override_reads_the_default<
    R: Fn(&[u8], &[u64], Budget) -> ProgramOutcome,
>(config: ConfigModel, id: u8, args: Seq<u64>, run: R, value: u64)
    requires
        ParameterSpec::allocates(id),
        config.override_of(id) is None,
        config.reads(id, args, run, value),
    ensures
        value == ParameterSpec::registered(id).fallback,
{
}

/// A literal override of the declared width wins over the default, and no program is
/// asked.
pub proof fn law_literal_override_wins<R: Fn(&[u8], &[u64], Budget) -> ProgramOutcome>(
    config: ConfigModel,
    id: u8,
    args: Seq<u64>,
    run: R,
    value: u64,
)
    requires
        ParameterSpec::allocates(id),
        config.override_of(id) matches Some(entry) && !entry.bytecode && entry.value.len()
            == ParameterSpec::registered(id).width,
        config.reads(id, args, run, value),
    ensures
        value == crate::bytes::le_value(config.override_of(id)->0.value),
{
    let entry = config.override_of(id)->0;
    crate::registry::law_registry_is_dense(id);
    crate::bytes::lemma_le_value_bound(entry.value);
    crate::bytes::lemma_pow256_monotonic(entry.value.len(), 8);
    crate::bytes::lemma_pow256_bounds();
}

/// A program override that completes with a value that may stand is what is read.
pub proof fn law_completed_program_is_read(
    config: ConfigModel,
    id: u8,
    value: u64,
    second: ProgramOutcome,
)
    requires
        ParameterSpec::allocates(id),
        config.override_program(ParameterSpec::registered(id)) is Some,
        config.platform.admits_computed(id, value as nat),
    ensures
        config.value_of(
            ParameterSpec::registered(id),
            ProgramOutcome::Completed(value),
            second,
        ) == value,
{
}

/// A program override that traps, runs out of fuel or computes a value that may not
/// stand is never seen by the reader: the value is the code-baked default.
pub proof fn law_failed_program_falls_back(
    config: ConfigModel,
    id: u8,
    first: ProgramOutcome,
    second: ProgramOutcome,
)
    requires
        ParameterSpec::allocates(id),
        config.override_program(ParameterSpec::registered(id)) is Some,
        first matches ProgramOutcome::Completed(value) ==> !config.platform.admits_computed(
            id,
            value as nat,
        ),
    ensures
        config.value_of(ParameterSpec::registered(id), first, second)
            == ParameterSpec::registered(id).fallback,
{
}

/// The override runs on the budget that it is given, and a default that is a program on a
/// fresh one, whatever was left: the value comes from either run, or is the fallback.
pub proof fn law_each_tier_gets_a_fresh_budget<
    R: Fn(&[u8], &[u64], Budget) -> ProgramOutcome,
>(
    config: ConfigModel,
    record: ParameterSpec,
    program: &'static [u8],
    args: Seq<u64>,
    budget: Budget,
    run: R,
    value: u64,
)
    requires
        record.default == DefaultValue::Program(program),
        config.resolves(record, args, budget, run, value),
    ensures
        ({
            ||| exists|first: ProgramOutcome|
                #[trigger] config.tier_one(record, first) == Some(value) && (
                config.override_program(record) matches Some(code) ==> crate::resolution::reports(
                    run,
                    code,
                    args,
                    budget,
                    first,
                ))
            ||| exists|second: ProgramOutcome|
                #[trigger] crate::resolution::reports(
                    run,
                    program@,
                    args,
                    Budget::Fresh(config.fuel_limit()),
                    second,
                ) && value == match config.standing(record, second) {
                    Some(value) => value,
                    None => record.fallback,
                }
        }),
{
    let (first, second) = choose|first: ProgramOutcome, second: ProgramOutcome|
        #[trigger] config.runs_report(record, args, budget, run, first, second) && value
            == config.value_of(record, first, second);
    if config.tier_one(record, first) is Some {
        assert(config.tier_one(record, first) == Some(value));
    } else {
        assert(crate::resolution::reports(
            run,
            program@,
            args,
            Budget::Fresh(config.fuel_limit()),
            second,
        ));
    }
}

/// The value of a literal-only parameter is what the content declares or the default,
/// whatever programs do.
pub proof fn law_literal_only_parameters_run_nothing(
    config: ConfigModel,
    id: u8,
    first: ProgramOutcome,
    second: ProgramOutcome,
)
    requires
        ParameterSpec::allocates(id),
        !ParameterSpec::registered(id).bytecode_allowed,
    ensures
        config.override_program(ParameterSpec::registered(id)) is None,
        config.value_of(ParameterSpec::registered(id), first, second) == config.declared_value(id),
{
}

/// Two builds that hold the same content read the same value of every parameter, as long
/// as programs end alike: no capacity of a build and no commitment has a say in it. The header
/// of the block format, under which no computed block-size limit stands, is the same for all.
pub proof fn law_builds_agree(
    one: ConfigModel,
    other: ConfigModel,
    id: u8,
    first: ProgramOutcome,
    second: ProgramOutcome,
)
    requires
        ParameterSpec::allocates(id),
        one.entries == other.entries,
        id == parameter::BLOCK_SIZE_LIMIT ==> one.platform.header_size
            == other.platform.header_size,
    ensures
        one.value_of(ParameterSpec::registered(id), first, second) == other.value_of(
            ParameterSpec::registered(id),
            first,
            second,
        ),
        one.fuel_limit() == other.fuel_limit(),
{
}

/// The configuration that accessors read of `payload`.
pub open spec fn configuration_of(
    payload: PayloadModel,
    commitment: Commitment,
    platform: Platform,
) -> ConfigModel {
    ConfigModel { entries: payload.entries, commitment, platform }
}

/// An override of accepted content conforms to the registry.
proof fn lemma_accepted_override(payload: PayloadModel, platform: Platform, id: u8)
    requires
        payload.acceptance(platform) is Ok,
    ensures
        crate::framing::find_entry(payload.entries, id) matches Some(entry) ==> {
            &&& entry.parameter_id == id
            &&& ParameterSpec::allocates(id)
            &&& entry.bytecode ==> ParameterSpec::registered(id).bytecode_allowed
            &&& !entry.bytecode ==> {
                &&& entry.value.len() == ParameterSpec::registered(id).width
                &&& platform.admits(id, entry.number())
                &&& entry.number() == crate::bytes::le_value(entry.value)
                &&& entry.number() < crate::bytes::pow256(
                    ParameterSpec::registered(id).width as nat,
                ) <= crate::bytes::pow256(8)
            }
        },
{
    crate::framing::lemma_find_entry(payload.entries, id);
    if let Some(entry) = crate::framing::find_entry(payload.entries, id) {
        let i = choose|i: int| 0 <= i < payload.entries.len() && payload.entries[i] == entry;
        law_accepted_content_conforms(payload, platform, i);
        crate::registry::law_registry_is_dense(id);
        if !entry.bytecode {
            crate::bytes::lemma_le_value_bound(entry.value);
            crate::bytes::lemma_pow256_monotonic(entry.value.len(), 8);
        }
    }
}

/// Of accepted content every parameter but the block-size limit reads within its bound,
/// whatever programs do.
pub proof fn law_accepted_content_reads_within_bounds(
    payload: PayloadModel,
    platform: Platform,
    commitment: Commitment,
    id: u8,
    first: ProgramOutcome,
    second: ProgramOutcome,
)
    requires
        payload.acceptance(platform) is Ok,
        platform.honours_defaults(),
        ParameterSpec::allocates(id),
        id != parameter::BLOCK_SIZE_LIMIT,
    ensures
        platform.admits(
            id,
            configuration_of(payload, commitment, platform).value_of(
                ParameterSpec::registered(id),
                first,
                second,
            ) as nat,
        ),
{
    lemma_accepted_override(payload, platform, id);
    law_defaults_satisfy_their_bounds(id, platform);
    crate::bytes::lemma_pow256_bounds();
}

/// Of accepted content the block-size limit reads within its bound unless a program
/// computes it.
pub proof fn law_a_declared_block_size_limit_is_within_bounds(
    payload: PayloadModel,
    platform: Platform,
    commitment: Commitment,
    first: ProgramOutcome,
    second: ProgramOutcome,
)
    requires
        payload.acceptance(platform) is Ok,
        platform.honours_defaults(),
        configuration_of(payload, commitment, platform).override_program(
            ParameterSpec::registered(parameter::BLOCK_SIZE_LIMIT),
        ) is None,
    ensures
        platform.header_size < configuration_of(payload, commitment, platform).value_of(
            ParameterSpec::registered(parameter::BLOCK_SIZE_LIMIT),
            first,
            second,
        ) <= platform.max_block_size,
{
    let id = parameter::BLOCK_SIZE_LIMIT;
    lemma_accepted_override(payload, platform, id);
    law_defaults_satisfy_their_bounds(id, platform);
    crate::bytes::lemma_pow256_bounds();
}

/// Of accepted content the block-size limit always reads above the header, so that a block
/// can be built, whatever programs do.
pub proof fn law_the_block_size_limit_admits_a_block(
    payload: PayloadModel,
    platform: Platform,
    commitment: Commitment,
    first: ProgramOutcome,
    second: ProgramOutcome,
)
    requires
        payload.acceptance(platform) is Ok,
        platform.honours_defaults(),
    ensures
        platform.header_size < configuration_of(payload, commitment, platform).value_of(
            ParameterSpec::registered(parameter::BLOCK_SIZE_LIMIT),
            first,
            second,
        ),
{
    let id = parameter::BLOCK_SIZE_LIMIT;
    lemma_accepted_override(payload, platform, id);
    law_defaults_satisfy_their_bounds(id, platform);
    crate::bytes::lemma_pow256_bounds();
}

/// Saturation never touches a value that accepted content declares: a literal reads as
/// it was written.
pub proof fn law_accepted_literals_read_exactly(
    payload: PayloadModel,
    platform: Platform,
    commitment: Commitment,
    i: int,
    first: ProgramOutcome,
    second: ProgramOutcome,
)
    requires
        payload.well_framed(),
        payload.acceptance(platform) is Ok,
        0 <= i < payload.entries.len(),
        !payload.entries[i].bytecode,
    ensures
        ({
            let entry = payload.entries[i];
            let record = ParameterSpec::registered(entry.parameter_id);
            let value = configuration_of(payload, commitment, platform).value_of(
                record,
                first,
                second,
            );
            &&& value == crate::bytes::le_value(entry.value)
            &&& record.width == 1 ==> crate::bytes::saturate_u8(value) == value
            &&& record.width == 2 ==> crate::bytes::saturate_u16(value) == value
            &&& record.width == 4 ==> crate::bytes::saturate_u32(value) == value
            &&& crate::bytes::le_bytes(value as nat, record.width as nat) == entry.value
        }),
{
    let entry = payload.entries[i];
    crate::framing::lemma_find_entry_is_unique(payload.entries, i);
    lemma_accepted_override(payload, platform, entry.parameter_id);
    crate::registry::law_registry_is_dense(entry.parameter_id);
    crate::bytes::lemma_pow256_bounds();
    crate::bytes::law_le_verbatim(entry.value);
}

/// The execution budget is downward-only: accepted content never buys more than the
/// default, and never nothing.
pub proof fn law_the_budget_is_downward_only(
    payload: PayloadModel,
    platform: Platform,
    commitment: Commitment,
)
    requires
        payload.acceptance(platform) is Ok,
    ensures
        1 <= configuration_of(payload, commitment, platform).fuel_limit() <= VM_FUEL_LIMIT_MAX,
{
    lemma_accepted_override(payload, platform, parameter::VM_FUEL_LIMIT);
    crate::bytes::lemma_pow256_bounds();
}

/// The transaction-fee range of accepted content is never inverted, as long as neither
/// end is computed.
pub proof fn law_the_fee_range_is_in_order(
    payload: PayloadModel,
    platform: Platform,
    commitment: Commitment,
    first: ProgramOutcome,
    second: ProgramOutcome,
)
    requires
        payload.acceptance(platform) is Ok,
        configuration_of(payload, commitment, platform).override_program(
            ParameterSpec::registered(parameter::TX_FEE_PER_BYTE_MIN),
        ) is None,
        configuration_of(payload, commitment, platform).override_program(
            ParameterSpec::registered(parameter::TX_FEE_PER_BYTE_MAX),
        ) is None,
    ensures
        configuration_of(payload, commitment, platform).value_of(
            ParameterSpec::registered(parameter::TX_FEE_PER_BYTE_MIN),
            first,
            second,
        ) <= configuration_of(payload, commitment, platform).value_of(
            ParameterSpec::registered(parameter::TX_FEE_PER_BYTE_MAX),
            first,
            second,
        ),
{
    lemma_accepted_override(payload, platform, parameter::TX_FEE_PER_BYTE_MIN);
    lemma_accepted_override(payload, platform, parameter::TX_FEE_PER_BYTE_MAX);
    crate::bytes::lemma_pow256_bounds();
}

// The commitment state.

/// Every operation keeps what holds of every state.
pub proof fn law_operations_keep_the_state_well_formed(
    state: ModuleModel,
    payload: Option<PayloadModel>,
    commitment: Commitment,
)
    requires
        state.well_formed(),
        payload matches Some(payload) ==> payload.well_framed(),
    ensures
        state.after_load(payload, commitment).well_formed(),
        state.after_promote().well_formed(),
        state.after_discard().well_formed(),
{
}

/// A durable configuration is set once: no operation changes it, and each that would is
/// refused.
pub proof fn law_a_durable_configuration_is_set_once(
    state: ModuleModel,
    payload: Option<PayloadModel>,
    commitment: Commitment,
)
    requires
        state.is_durable_locked(),
    ensures
        state.load_verdict(payload) == Err::<(), ChainConfigError>(
            ChainConfigError::DurableLocked,
        ),
        state.promote_verdict() == Err::<(), ChainConfigError>(ChainConfigError::DurableLocked),
        state.after_load(payload, commitment) == state,
        state.after_promote() == state,
        state.after_discard() == state,
{
}

/// A refused request leaves the state exactly as it was.
pub proof fn law_a_refusal_changes_nothing(
    state: ModuleModel,
    payload: Option<PayloadModel>,
    commitment: Commitment,
)
    ensures
        state.load_verdict(payload) is Err ==> state.after_load(payload, commitment) == state,
        state.promote_verdict() is Err ==> state.after_promote() == state,
{
}

/// What was loaded is what is read back: its content region under the commitment that it
/// was loaded with, and nothing under the other.
pub proof fn law_a_load_is_read_back(
    state: ModuleModel,
    payload: PayloadModel,
    commitment: Commitment,
    other: Commitment,
)
    requires
        state.load_verdict(Some(payload)) is Ok,
        other != commitment,
    ensures
        state.after_load(Some(payload), commitment).content_held_as(commitment) == Some(
            payload.content(),
        ),
        state.after_load(Some(payload), commitment).content_held_as(other) is None,
        state.after_load(Some(payload), commitment).active() == Some(
            configuration_of(payload, commitment, state.platform),
        ),
{
}

/// Promotion flips the flag over the same bytes: the content that was tentative is
/// durable, and every value reads as before.
pub proof fn law_promotion_keeps_the_content(
    state: ModuleModel,
    id: u8,
    first: ProgramOutcome,
    second: ProgramOutcome,
)
    requires
        state.promote_verdict() is Ok,
    ensures
        state.after_promote().is_durable_locked(),
        state.after_promote().content_held_as(Commitment::Durable) == state.content_held_as(
            Commitment::Tentative,
        ),
        state.after_promote().content_held_as(Commitment::Tentative) is None,
        state.after_promote().active()->0.value_of(
            ParameterSpec::registered(id),
            first,
            second,
        ) == state.active()->0.value_of(ParameterSpec::registered(id), first, second),
{
}

/// A discard brings tentative content back to absent, and a new load is then answered as
/// by a module that never held any.
pub proof fn law_a_discard_returns_to_absent(state: ModuleModel, payload: Option<PayloadModel>)
    requires
        !state.is_durable_locked(),
    ensures
        state.after_discard() == (ModuleModel { held: None, platform: state.platform }),
        state.after_discard().active() is None,
        state.after_discard().load_verdict(payload) == state.load_verdict(payload),
{
}

} // verus!
