//! Laws of acceptance: which content is accepted, and what a refusal names.

use vstd::prelude::*;

use crate::acceptance::{accept_content, bounded, check_bound, ChainConfigError, Platform};
use crate::framing::{ConfigValue, EntryModel, FramedPayload, PayloadModel};
use crate::registry::ParameterSpec;

verus! {

/// The bounds, in numbers. The block-size limit admits a header and fits the block buffer. The
/// output count is 1 to 256. The signature count and the required support are at least 1 and no
/// more than the build can aggregate. The vote scale is not zero. The fill threshold is a
/// percentage. The chain length is 1 to 500, the budget 1 to 20000. Nothing else is bounded.
pub proof fn law_the_bounds_in_numbers(
    id: u8,
    value: u64,
    platform: Platform,
    verdict: Result<(), ChainConfigError>,
)
    requires
        call_ensures(check_bound, (id, value, &platform), verdict),
    ensures
        verdict is Ok <==> {
            &&& id == 3 ==> platform.header_size < value <= platform.max_block_size
            &&& id == 4 ==> 1 <= value <= 256
            &&& id == 5 || id == 10 ==> 1 <= value <= platform.max_aggregated_signatures
            &&& id == 6 ==> value != 0
            &&& id == 20 ==> value <= 100
            &&& id == 21 ==> 1 <= value <= 500
            &&& id == 29 ==> 1 <= value <= 20_000
        },
        verdict is Err ==> verdict == Err::<(), ChainConfigError>(
            ChainConfigError::BoundViolation(id),
        ),
        platform.admits(id, value as nat) <==> verdict is Ok,
{
}

/// A computed value of a parameter without a bound stands, whatever it is. One of a bounded
/// parameter stands exactly when a declared one would be accepted, but for the block-size
/// limit, which stands whenever it is above the header.
pub proof fn law_which_computed_values_stand(
    id: u8,
    value: u64,
    platform: Platform,
    standing: Option<u64>,
    verdict: Result<(), ChainConfigError>,
)
    requires
        call_ensures(bounded, (id, value, &platform), standing),
        call_ensures(check_bound, (id, value, &platform), verdict),
    ensures
        !(id == 3 || id == 4 || id == 5 || id == 6 || id == 10 || id == 20 || id == 21 || id == 29)
            ==> standing == Some(value),
        id == 20 ==> (standing == Some(value) <==> value <= 100),
        id == 3 ==> (standing == Some(value) <==> value > platform.header_size),
        id != 3 ==> (standing == Some(value) <==> verdict is Ok),
        standing == Some(value) || standing is None,
        platform.admits_computed(id, value as nat) <==> standing is Some,
{
}

/// Whether an entry is one that the registry lets stand: it names an allocated parameter, as a
/// program where one may, or as a literal of the declared width.
pub open spec fn well_formed(entry: EntryModel) -> bool {
    &&& 1 <= entry.parameter_id <= 29
    &&& entry.bytecode ==> ParameterSpec::registered(entry.parameter_id).bytecode_allowed
    &&& !entry.bytecode ==> entry.value.len() == ParameterSpec::registered(
        entry.parameter_id,
    ).width
}

/// Whether the number that an entry declares, if it declares one, is within its bound.
pub open spec fn within_bounds(entry: EntryModel, platform: Platform) -> bool {
    let id = entry.parameter_id;
    let value = crate::bytes::le_value(entry.value);
    entry.bytecode || {
        &&& id == 3 ==> platform.header_size < value <= platform.max_block_size
        &&& id == 4 ==> 1 <= value <= 256
        &&& id == 5 || id == 10 ==> 1 <= value <= platform.max_aggregated_signatures
        &&& id == 6 ==> value != 0
        &&& id == 20 ==> value <= 100
        &&& id == 21 ==> 1 <= value <= 500
        &&& id == 29 ==> 1 <= value <= 20_000
    }
}

/// Whether `value` is what the content declares for `id`, or `default` where no literal of the
/// content declares anything for it.
pub open spec fn declares_or_else(
    payload: PayloadModel,
    id: u8,
    default: nat,
    value: nat,
) -> bool {
    ||| exists|i: int|
        0 <= i < payload.entries.len() && (#[trigger] payload.entries[i]).parameter_id == id
            && !payload.entries[i].bytecode && value == crate::bytes::le_value(
            payload.entries[i].value,
        )
    ||| value == default && forall|i: int|
        0 <= i < payload.entries.len() && (#[trigger] payload.entries[i]).parameter_id == id
            ==> payload.entries[i].bytecode
}

/// Content is accepted exactly when it fits the buffer, the registry lets every entry stand,
/// every declared value is within its bound, and the lowest fee that it declares, or else 0, is
/// no more than the highest that it declares, or else 1000. The answer is the length of the
/// content region.
pub proof fn law_content_is_accepted_exactly_when(
    payload: PayloadModel,
    platform: Platform,
    lowest: nat,
    highest: nat,
)
    requires
        payload.well_framed(),
        declares_or_else(payload, 25, 0, lowest),
        declares_or_else(payload, 26, 1000, highest),
    ensures
        payload.acceptance(platform) is Ok <==> {
            &&& payload.payload.len() <= platform.max_payload_size
            &&& forall|i: int|
                0 <= i < payload.entries.len() ==> well_formed(#[trigger] payload.entries[i])
            &&& forall|i: int|
                0 <= i < payload.entries.len() ==> within_bounds(
                    #[trigger] payload.entries[i],
                    platform,
                )
            &&& lowest <= highest
        },
        payload.acceptance(platform) matches Ok(len) ==> len == payload.content_len,
{
    lemma_conformance(payload, payload.entries.len() as int);
    if forall|i: int|
        0 <= i < payload.entries.len() ==> well_formed(#[trigger] payload.entries[i]) {
        lemma_bounds(payload, platform, payload.entries.len() as int);
        lemma_declared(payload, 25, 0, lowest);
        lemma_declared(payload, 26, 1000, highest);
    }
}

/// A payload that does not fit the buffer is malformed content.
pub proof fn law_oversized_content_is_malformed(payload: PayloadModel, platform: Platform)
    requires
        payload.payload.len() > platform.max_payload_size,
    ensures
        payload.acceptance(platform) == Err::<usize, ChainConfigError>(
            ChainConfigError::MalformedContent,
        ),
{
}

/// The first entry that the registry does not let stand is what content is refused for: an
/// unknown parameter by its key byte, a program that may not be or a literal of the wrong width
/// by its identifier.
pub proof fn law_the_first_unfit_entry_is_named(payload: PayloadModel, platform: Platform, i: int)
    requires
        payload.payload.len() <= platform.max_payload_size,
        0 <= i < payload.entries.len(),
        !well_formed(payload.entries[i]),
        forall|j: int| 0 <= j < i ==> well_formed(#[trigger] payload.entries[j]),
    ensures
        ({
            let entry = payload.entries[i];
            payload.acceptance(platform) == Err::<usize, ChainConfigError>(
                if !(1 <= entry.parameter_id <= 29) {
                    ChainConfigError::UnknownParameter(entry.key_byte)
                } else if entry.bytecode {
                    ChainConfigError::BytecodeNotPermitted(entry.parameter_id)
                } else {
                    ChainConfigError::ValueWidthMismatch(entry.parameter_id)
                },
            )
        }),
{
    let faults = payload.entries.map_values(|entry: EntryModel| entry.conformance_fault());
    assert forall|j: int| 0 <= j < i implies (#[trigger] faults[j]) is None by {
        assert(well_formed(payload.entries[j]));
    }
    assert(faults[i] is Some);
    lemma_first_fault_at(faults, i);
}

/// Where the registry lets every entry stand, the first declared value outside its bound is
/// what content is refused for.
pub proof fn law_the_first_value_out_of_bounds_is_named(
    payload: PayloadModel,
    platform: Platform,
    i: int,
)
    requires
        payload.payload.len() <= platform.max_payload_size,
        forall|j: int|
            0 <= j < payload.entries.len() ==> well_formed(#[trigger] payload.entries[j]),
        0 <= i < payload.entries.len(),
        !within_bounds(payload.entries[i], platform),
        forall|j: int| 0 <= j < i ==> within_bounds(#[trigger] payload.entries[j], platform),
    ensures
        payload.acceptance(platform) == Err::<usize, ChainConfigError>(
            ChainConfigError::BoundViolation(payload.entries[i].parameter_id),
        ),
{
    lemma_conformance(payload, payload.entries.len() as int);
    let faults = payload.entries.map_values(|entry: EntryModel| entry.bound_fault(platform));
    assert forall|j: int| 0 <= j < i implies (#[trigger] faults[j]) is None by {
        assert(well_formed(payload.entries[j]));
        assert(within_bounds(payload.entries[j], platform));
        lemma_number(payload.entries[j]);
    }
    assert(well_formed(payload.entries[i]));
    lemma_number(payload.entries[i]);
    assert(faults[i] is Some);
    lemma_first_fault_at(faults, i);
}

/// Where nothing else is wrong, a fee range that is inverted is refused under the parameter of
/// its lower end.
pub proof fn law_an_inverted_fee_range_is_named(
    payload: PayloadModel,
    platform: Platform,
    lowest: nat,
    highest: nat,
)
    requires
        payload.well_framed(),
        payload.payload.len() <= platform.max_payload_size,
        forall|i: int|
            0 <= i < payload.entries.len() ==> well_formed(#[trigger] payload.entries[i]),
        forall|i: int|
            0 <= i < payload.entries.len() ==> within_bounds(
                #[trigger] payload.entries[i],
                platform,
            ),
        declares_or_else(payload, 25, 0, lowest),
        declares_or_else(payload, 26, 1000, highest),
        lowest > highest,
    ensures
        payload.acceptance(platform) == Err::<usize, ChainConfigError>(
            ChainConfigError::BoundViolation(25),
        ),
{
    lemma_conformance(payload, payload.entries.len() as int);
    lemma_bounds(payload, platform, payload.entries.len() as int);
    lemma_declared(payload, 25, 0, lowest);
    lemma_declared(payload, 26, 1000, highest);
}

/// Accepting content is what the laws of acceptance speak of. Where the walk found no framing,
/// content is malformed.
pub proof fn law_accepting_gives_the_verdict(
    payload: &FramedPayload,
    platform: Platform,
    verdict: Result<usize, ChainConfigError>,
    unframed: Result<usize, ChainConfigError>,
)
    requires
        call_ensures(accept_content, (Some(payload), &platform), verdict),
        call_ensures(accept_content, (None, &platform), unframed),
    ensures
        verdict == payload@.acceptance(platform),
        unframed == Err::<usize, ChainConfigError>(ChainConfigError::MalformedContent),
        crate::acceptance::acceptance_of(Some(payload@), platform) == verdict,
        crate::acceptance::acceptance_of(None, platform) == unframed,
{
}

/// A payload is framed exactly when its content region lies in it, every identifier is from 1
/// to 126, and none occurs twice. What is framed is what was handed over.
pub proof fn law_what_is_framed(
    payload: Vec<u8>,
    content_len: usize,
    entries: Vec<ConfigValue>,
    framed: Option<FramedPayload>,
)
    requires
        call_ensures(FramedPayload::new, (payload, content_len, entries), framed),
    ensures
        framed is Some <==> {
            &&& content_len <= payload@.len()
            &&& forall|i: int|
                0 <= i < entries@.len() ==> 1 <= (#[trigger] entries@[i]).parameter_id <= 126
            &&& forall|i: int, j: int|
                0 <= i < entries@.len() && 0 <= j < entries@.len() && i != j ==> (
                #[trigger] entries@[i]).parameter_id != (#[trigger] entries@[j]).parameter_id
        },
        framed matches Some(framed) ==> {
            &&& framed@.payload == payload@
            &&& framed@.content() == payload@.take(content_len as int)
            &&& framed@.content_len == content_len
            &&& framed@.entries.len() == entries@.len()
            &&& forall|i: int|
                0 <= i < entries@.len() ==> #[trigger] framed@.entries[i] == (EntryModel {
                    key_byte: entries@[i].key_byte,
                    parameter_id: entries@[i].parameter_id,
                    bytecode: entries@[i].bytecode,
                    value: entries@[i].value@,
                })
        },
{
    let models = crate::framing::entry_models(entries@);
    assert forall|i: int| 0 <= i < entries@.len() implies (
    #[trigger] entries@[i]).parameter_id == models[i].parameter_id by {}
    assert(payload@.len() == payload.len());
    if framed is Some {
        assert forall|i: int, j: int|
            0 <= i < entries@.len() && 0 <= j < entries@.len() && i != j implies (
        #[trigger] entries@[i]).parameter_id != (#[trigger] entries@[j]).parameter_id by {
            if i < j {
                assert(models[i].parameter_id != models[j].parameter_id);
            } else {
                assert(models[j].parameter_id != models[i].parameter_id);
            }
        }
        assert forall|i: int| 0 <= i < entries@.len() implies 1 <= (
        #[trigger] entries@[i]).parameter_id <= 126 by {
            assert(1 <= models[i].parameter_id <= 126);
        }
    }
}

proof fn lemma_number(entry: EntryModel)
    requires
        well_formed(entry),
    ensures
        !entry.bytecode ==> entry.number() == crate::bytes::le_value(entry.value),
{
    crate::registry::law_registry_is_dense(entry.parameter_id);
    if !entry.bytecode {
        assert(crate::bytes::low_eight(entry.value) =~= entry.value);
    }
}

proof fn lemma_conformance(payload: PayloadModel, n: int)
    requires
        n == payload.entries.len(),
    ensures
        payload.conformance_fault() is None <==> forall|i: int|
            0 <= i < n ==> well_formed(#[trigger] payload.entries[i]),
{
    let faults = payload.entries.map_values(|entry: EntryModel| entry.conformance_fault());
    crate::acceptance::lemma_first_fault(faults);
    assert forall|i: int| 0 <= i < n implies (faults[i] is None <==> well_formed(
        #[trigger] payload.entries[i],
    )) by {}
    if payload.conformance_fault() is None {
        assert forall|i: int| 0 <= i < n implies well_formed(#[trigger] payload.entries[i]) by {
            assert(faults[i] is None);
        }
    }
}

proof fn lemma_bounds(payload: PayloadModel, platform: Platform, n: int)
    requires
        n == payload.entries.len(),
        forall|i: int| 0 <= i < n ==> well_formed(#[trigger] payload.entries[i]),
    ensures
        payload.bound_fault(platform) is None <==> forall|i: int|
            0 <= i < n ==> within_bounds(#[trigger] payload.entries[i], platform),
{
    let faults = payload.entries.map_values(|entry: EntryModel| entry.bound_fault(platform));
    crate::acceptance::lemma_first_fault(faults);
    assert forall|i: int| 0 <= i < n implies (faults[i] is None <==> within_bounds(
        #[trigger] payload.entries[i],
        platform,
    )) by {
        assert(well_formed(payload.entries[i]));
        lemma_number(payload.entries[i]);
    }
    if payload.bound_fault(platform) is None {
        assert forall|i: int| 0 <= i < n implies within_bounds(
            #[trigger] payload.entries[i],
            platform,
        ) by {
            assert(faults[i] is None);
        }
    }
}

proof fn lemma_declared(payload: PayloadModel, id: u8, default: nat, value: nat)
    requires
        payload.well_framed(),
        forall|i: int|
            0 <= i < payload.entries.len() ==> well_formed(#[trigger] payload.entries[i]),
        1 <= id <= 29,
        default == ParameterSpec::registered(id).fallback,
        declares_or_else(payload, id, default, value),
    ensures
        payload.declared_or_default(id) == value,
{
    crate::framing::lemma_find_entry(payload.entries, id);
    if exists|i: int|
        0 <= i < payload.entries.len() && (#[trigger] payload.entries[i]).parameter_id == id
            && !payload.entries[i].bytecode && value == crate::bytes::le_value(
            payload.entries[i].value,
        ) {
        let i = choose|i: int|
            0 <= i < payload.entries.len() && (#[trigger] payload.entries[i]).parameter_id == id
                && !payload.entries[i].bytecode && value == crate::bytes::le_value(
                payload.entries[i].value,
            );
        crate::framing::lemma_find_entry_is_unique(payload.entries, i);
        assert(well_formed(payload.entries[i]));
        lemma_number(payload.entries[i]);
    } else if let Some(entry) = crate::framing::find_entry(payload.entries, id) {
        let i = choose|i: int| 0 <= i < payload.entries.len() && payload.entries[i] == entry;
        assert(payload.entries[i].bytecode);
    }
}

proof fn lemma_first_fault_at(faults: Seq<Option<ChainConfigError>>, i: int)
    requires
        0 <= i < faults.len(),
        faults[i] is Some,
        forall|j: int| 0 <= j < i ==> (#[trigger] faults[j]) is None,
    ensures
        crate::acceptance::first_fault(faults) == faults[i],
    decreases i,
{
    if i > 0 {
        let rest = faults.drop_first();
        assert(faults[0] is None);
        assert forall|j: int| 0 <= j < i - 1 implies (#[trigger] rest[j]) is None by {
            assert(faults[j + 1] is None);
        }
        lemma_first_fault_at(rest, i - 1);
    }
}

/// A payload shows what it holds: all of its bytes, its content region, its entries, and the
/// one entry of an identifier.
pub proof fn law_a_payload_shows_what_it_holds(
    framed: FramedPayload,
    payload: &[u8],
    content: &[u8],
    entries: &Vec<ConfigValue>,
    bytes: Vec<u8>,
    id: u8,
    found: Option<&ConfigValue>,
)
    requires
        call_ensures(FramedPayload::payload, (&framed,), payload),
        call_ensures(FramedPayload::content, (&framed,), content),
        call_ensures(FramedPayload::entries, (&framed,), entries),
        call_ensures(FramedPayload::into_payload, (framed,), bytes),
        call_ensures(FramedPayload::entry, (&framed, id), found),
    ensures
        payload@ == framed@.payload,
        bytes@ == framed@.payload,
        content@ == framed@.payload.take(framed@.content_len as int),
        entries@.len() == framed@.entries.len(),
        forall|i: int|
            0 <= i < entries@.len() ==> (#[trigger] entries@[i])@ == framed@.entries[i],
        match found {
            Some(entry) => entry.parameter_id == id && framed@.entries.contains(entry@),
            None => forall|i: int|
                0 <= i < framed@.entries.len() ==> (#[trigger] framed@.entries[i]).parameter_id
                    != id,
        },
{
    crate::framing::lemma_find_entry(framed@.entries, id);
}

} // verus!
