//! The acceptance pass.
//!
//! Content is accepted on the values it declares, before anything is loaded: past a
//! narrowing accessor an out-of-range value could no longer be told from a legal one.
//! No program is run here. A program that misbehaves is covered by resolution, which
//! falls through to the code-baked default.

use vstd::prelude::*;

use crate::bytes::read_le;
use crate::framing::{ConfigValue, EntryModel, FramedPayload, PayloadModel};
use crate::parameter;
use crate::registry::{
    parameter_spec, spec, ParameterSpec, SNAKE_CHAIN_LENGTH_MAX, UTXO_UNSPENT_BITS,
    VM_FUEL_LIMIT_MAX,
};

verus! {

/// Why configuration content was refused, or a state operation declined.
///
/// A refusal of content leaves no trace in the module.
#[derive(Clone, Copy, Debug, PartialEq, Eq, Structural)]
pub enum ChainConfigError {
    /// The envelope framing is malformed, or the payload is larger than the retention
    /// buffer.
    MalformedContent,
    /// The content names an identifier that this build does not allocate. It carries
    /// the key byte as written, so that the diagnosis reads: the node is out of date.
    UnknownParameter(u8),
    /// A literal does not have the declared width of the parameter.
    ValueWidthMismatch(u8),
    /// A program stands under a literal-only parameter.
    BytecodeNotPermitted(u8),
    /// A declared value violates one of the structural bounds.
    BoundViolation(u8),
    /// The configuration is durably locked. It is set once for the lifetime of the
    /// chain.
    DurableLocked,
    /// There is no configuration to promote.
    NotLoaded,
}

/// What the block format, the signature scheme and the virtual machine around this
/// library fix for the build.
#[derive(Clone, Copy, Debug, PartialEq, Eq, Structural)]
pub struct Platform {
    /// Size of the payload retention buffer.
    pub max_payload_size: usize,
    /// Size of the fixed block header.
    pub header_size: u64,
    /// Size of the block buffer.
    pub max_block_size: u64,
    /// How many signatures this build can aggregate and verify.
    pub max_aggregated_signatures: u64,
    /// The function number under which a program asks its host for a parameter.
    pub resolve_parameter: u16,
}

impl Platform {
    /// Whether the code-baked defaults are values that this build can honour.
    pub open spec fn honours_defaults(self) -> bool {
        &&& self.header_size < 2016 <= self.max_block_size
        &&& 50 <= self.max_aggregated_signatures
    }

    /// The structural bounds: each sets what a chain states against what a build can
    /// honour. A parameter without a bound admits every value.
    pub open spec fn admits(self, id: u8, value: nat) -> bool {
        if id == parameter::MAX_BLOCK_UTXO_OUTPUT {
            1 <= value <= UTXO_UNSPENT_BITS
        } else if id == parameter::REQUIRED_SUPPORT || id == parameter::MAX_AGGREGATED_SIGNATURES {
            1 <= value <= self.max_aggregated_signatures
        } else if id == parameter::VOTE_SCALE {
            value != 0
        } else if id == parameter::BLOCK_SIZE_LIMIT {
            self.header_size < value <= self.max_block_size
        } else if id == parameter::BLOCK_FILL_THRESHOLD_PERCENT {
            value <= 100
        } else if id == parameter::ACTIVE_CHAIN_LENGTH {
            1 <= value <= SNAKE_CHAIN_LENGTH_MAX
        } else if id == parameter::VM_FUEL_LIMIT {
            1 <= value <= VM_FUEL_LIMIT_MAX
        } else {
            true
        }
    }

    /// Whether a computed value may stand.
    ///
    /// A program is held to the bound of its parameter, as a declared literal is. The
    /// block-size limit is the exception at its upper end: driven past the block buffer
    /// it is a limit that never binds, a weaker rule that the whole chain applies alike.
    /// Its lower end stays. It is the header of the block format, the same on every
    /// node, and below it no block could be built.
    pub open spec fn admits_computed(self, id: u8, value: nat) -> bool {
        if id == parameter::BLOCK_SIZE_LIMIT {
            self.header_size < value
        } else {
            self.admits(id, value)
        }
    }
}

impl EntryModel {
    /// The number that the value writes.
    pub open spec fn number(self) -> nat {
        crate::bytes::le_value(crate::bytes::low_eight(self.value))
    }

    /// What registry conformance holds against the entry.
    pub open spec fn conformance_fault(self) -> Option<ChainConfigError> {
        let id = self.parameter_id;
        if !ParameterSpec::allocates(id) {
            Some(ChainConfigError::UnknownParameter(self.key_byte))
        } else if self.bytecode && !ParameterSpec::registered(id).bytecode_allowed {
            Some(ChainConfigError::BytecodeNotPermitted(id))
        } else if !self.bytecode && self.value.len() != ParameterSpec::registered(id).width {
            Some(ChainConfigError::ValueWidthMismatch(id))
        } else {
            None
        }
    }

    /// What the structural bounds hold against the entry. A program declares no value.
    pub open spec fn bound_fault(self, platform: Platform) -> Option<ChainConfigError> {
        if !self.bytecode && !platform.admits(self.parameter_id, self.number()) {
            Some(ChainConfigError::BoundViolation(self.parameter_id))
        } else {
            None
        }
    }
}

/// The first fault of a run, if it holds one.
pub open spec fn first_fault(faults: Seq<Option<ChainConfigError>>) -> Option<ChainConfigError>
    decreases faults.len(),
{
    if faults.len() == 0 {
        None
    } else if faults[0] is Some {
        faults[0]
    } else {
        first_fault(faults.drop_first())
    }
}

/// A run has no first fault exactly when it has no fault.
pub proof fn lemma_first_fault(faults: Seq<Option<ChainConfigError>>)
    ensures
        first_fault(faults) is None <==> forall|i: int|
            0 <= i < faults.len() ==> #[trigger] faults[i] is None,
    decreases faults.len(),
{
    if faults.len() > 0 && faults[0] is None {
        let rest = faults.drop_first();
        lemma_first_fault(rest);
        assert forall|i: int| 0 < i < faults.len() implies faults[i] == rest[i - 1] by {}
        if first_fault(rest) is None {
            assert forall|i: int| 0 <= i < faults.len() implies #[trigger] faults[i] is None by {
                if i > 0 {
                    assert(faults[i] == rest[i - 1]);
                }
            }
        } else {
            let i = choose|i: int| 0 <= i < rest.len() && rest[i] !is None;
            assert(faults[i + 1] == rest[i]);
        }
    }
}

impl PayloadModel {
    /// The value that the content declares for `id`, or the code-baked default where
    /// it declares none. A program declares none.
    pub open spec fn declared_or_default(self, id: u8) -> nat {
        match crate::framing::find_entry(self.entries, id) {
            Some(entry) if !entry.bytecode => entry.number(),
            _ => ParameterSpec::registered(id).fallback as nat,
        }
    }

    /// What registry conformance holds against the content.
    pub open spec fn conformance_fault(self) -> Option<ChainConfigError> {
        first_fault(self.entries.map_values(|entry: EntryModel| entry.conformance_fault()))
    }

    /// What the bounds hold against the content, entry by entry.
    pub open spec fn bound_fault(self, platform: Platform) -> Option<ChainConfigError> {
        first_fault(self.entries.map_values(|entry: EntryModel| entry.bound_fault(platform)))
    }

    /// Whether the transaction-fee range has its ends in order.
    pub open spec fn fee_range_in_order(self) -> bool {
        self.declared_or_default(parameter::TX_FEE_PER_BYTE_MIN) <= self.declared_or_default(
            parameter::TX_FEE_PER_BYTE_MAX,
        )
    }

    /// The verdict on the content: the length of its content region, or the first
    /// reason to refuse it.
    pub open spec fn acceptance(self, platform: Platform) -> Result<usize, ChainConfigError> {
        if self.payload.len() > platform.max_payload_size {
            Err(ChainConfigError::MalformedContent)
        } else if self.conformance_fault() is Some {
            Err(self.conformance_fault()->0)
        } else if self.bound_fault(platform) is Some {
            Err(self.bound_fault(platform)->0)
        } else if !self.fee_range_in_order() {
            Err(ChainConfigError::BoundViolation(parameter::TX_FEE_PER_BYTE_MIN))
        } else {
            Ok(self.content_len as usize)
        }
    }
}

/// The verdict on what the envelope walk came back with. A walk that failed is
/// malformed content.
pub open spec fn acceptance_of(
    payload: Option<PayloadModel>,
    platform: Platform,
) -> Result<usize, ChainConfigError> {
    match payload {
        Some(payload) => payload.acceptance(platform),
        None => Err(ChainConfigError::MalformedContent),
    }
}

/// The model of an optional payload.
pub open spec fn optional_model(payload: Option<FramedPayload>) -> Option<PayloadModel> {
    match payload {
        Some(payload) => Some(payload@),
        None => None,
    }
}

/// The structural bounds, applied to a declared value.
pub fn check_bound(id: u8, declared: u64, platform: &Platform) -> (verdict: Result<
    (),
    ChainConfigError,
>)
    ensures
        verdict == if platform.admits(id, declared as nat) {
            Ok::<(), ChainConfigError>(())
        } else {
            Err(ChainConfigError::BoundViolation(id))
        },
{
    let within: bool = match id {
        // Above the spent-bit width the cache cannot represent the outputs; at zero no
        // output could ever be included.
        parameter::MAX_BLOCK_UTXO_OUTPUT => declared >= 1 && declared <= UTXO_UNSPENT_BITS as u64,
        // Evidence above what this build can aggregate could never be checked here.
        parameter::REQUIRED_SUPPORT
        | parameter::MAX_AGGREGATED_SIGNATURES => declared >= 1 && declared
            <= platform.max_aggregated_signatures,
        // A denominator.
        parameter::VOTE_SCALE => declared != 0,
        // A limit that cannot admit a header admits no block at all.
        parameter::BLOCK_SIZE_LIMIT => declared > platform.header_size && declared
            <= platform.max_block_size,
        // A percentage.
        parameter::BLOCK_FILL_THRESHOLD_PERCENT => declared <= 100,
        // A window has to hold at least one block, and to fit the capacity.
        parameter::ACTIVE_CHAIN_LENGTH => declared >= 1 && declared
            <= SNAKE_CHAIN_LENGTH_MAX as u64,
        // At zero every program would silently resolve to its default.
        parameter::VM_FUEL_LIMIT => declared >= 1 && declared <= VM_FUEL_LIMIT_MAX as u64,
        _ => true,
    };
    if within {
        Ok(())
    } else {
        Err(ChainConfigError::BoundViolation(id))
    }
}

/// A computed value, if it may stand. `None` makes the tier that computed it fail, and
/// resolution moves to the next.
pub fn bounded(id: u8, value: u64, platform: &Platform) -> (standing: Option<u64>)
    ensures
        standing == if platform.admits_computed(id, value as nat) {
            Some(value)
        } else {
            None
        },
{
    if id == parameter::BLOCK_SIZE_LIMIT {
        return if value > platform.header_size {
            Some(value)
        } else {
            None
        };
    }
    match check_bound(id, value, platform) {
        Ok(()) => Some(value),
        Err(_) => None,
    }
}

/// Whether one entry conforms to the registry.
fn check_conformance(entry: &ConfigValue) -> (verdict: Result<(), ChainConfigError>)
    ensures
        verdict == match entry@.conformance_fault() {
            Some(fault) => Err::<(), ChainConfigError>(fault),
            None => Ok(()),
        },
{
    let id: u8 = entry.parameter_id;
    match parameter_spec(id) {
        None => Err(ChainConfigError::UnknownParameter(entry.key_byte)),
        Some(record) => {
            if entry.bytecode {
                if !record.bytecode_allowed {
                    return Err(ChainConfigError::BytecodeNotPermitted(id));
                }
            } else if entry.value.len() != record.width as usize {
                return Err(ChainConfigError::ValueWidthMismatch(id));
            }
            Ok(())
        },
    }
}

/// The value that the content declares for `id`, or its code-baked default.
fn declared_or_default(payload: &FramedPayload, id: u8) -> (value: u64)
    requires
        ParameterSpec::allocates(id),
    ensures
        value == payload@.declared_or_default(id),
{
    match payload.entry(id) {
        Some(entry) => {
            if entry.bytecode {
                spec(id).fallback
            } else {
                read_le(entry.value.as_slice())
            }
        },
        None => spec(id).fallback,
    }
}

/// Accepts chain-config content, returning the length of its content region.
///
/// `payload` is what the envelope walk made of the whole block payload, or `None`
/// where the walk found its framing malformed. Three passes follow, each over every
/// entry: registry conformance, the structural bounds on the declared literals, and
/// the one rule that spans two parameters.
pub fn accept_content(payload: Option<&FramedPayload>, platform: &Platform) -> (verdict: Result<
    usize,
    ChainConfigError,
>)
    ensures
        verdict == match payload {
            Some(payload) => payload@.acceptance(*platform),
            None => Err(ChainConfigError::MalformedContent),
        },
{
    let framed: &FramedPayload = match payload {
        Some(framed) => framed,
        None => return Err(ChainConfigError::MalformedContent),
    };
    if framed.payload().len() > platform.max_payload_size {
        return Err(ChainConfigError::MalformedContent);
    }
    let entries: &Vec<ConfigValue> = framed.entries();
    let ghost models = framed@.entries;

    let ghost conformance = models.map_values(|entry: EntryModel| entry.conformance_fault());
    let mut i: usize = 0;
    assert(conformance.skip(0) =~= conformance);
    while i < entries.len()
        invariant
            i <= entries@.len(),
            models == crate::framing::entry_models(entries@),
            models == framed@.entries,
            payload == Some(framed),
            framed@.payload.len() <= platform.max_payload_size,
            conformance == models.map_values(|entry: EntryModel| entry.conformance_fault()),
            first_fault(conformance) == first_fault(conformance.skip(i as int)),
        decreases entries@.len() - i,
    {
        assert(conformance.skip(i as int)[0] == entries@[i as int]@.conformance_fault());
        match check_conformance(&entries[i]) {
            Err(fault) => return Err(fault),
            Ok(()) => {},
        }
        assert(conformance.skip(i as int).drop_first() =~= conformance.skip(i + 1));
        i = i + 1;
    }
    assert(first_fault(conformance) is None);

    let ghost bounds = models.map_values(|entry: EntryModel| entry.bound_fault(*platform));
    let mut i: usize = 0;
    assert(bounds.skip(0) =~= bounds);
    while i < entries.len()
        invariant
            i <= entries@.len(),
            models == crate::framing::entry_models(entries@),
            models == framed@.entries,
            payload == Some(framed),
            framed@.payload.len() <= platform.max_payload_size,
            framed@.conformance_fault() is None,
            bounds == models.map_values(|entry: EntryModel| entry.bound_fault(*platform)),
            first_fault(bounds) == first_fault(bounds.skip(i as int)),
        decreases entries@.len() - i,
    {
        assert(bounds.skip(i as int)[0] == entries@[i as int]@.bound_fault(*platform));
        if !entries[i].bytecode {
            let declared: u64 = read_le(entries[i].value.as_slice());
            match check_bound(entries[i].parameter_id, declared, platform) {
                Err(fault) => return Err(fault),
                Ok(()) => {},
            }
        }
        assert(bounds.skip(i as int).drop_first() =~= bounds.skip(i + 1));
        i = i + 1;
    }
    assert(first_fault(bounds) is None);

    // An end of the range that is absent, or computed by a program, contributes its
    // code-baked default.
    if declared_or_default(framed, parameter::TX_FEE_PER_BYTE_MIN) > declared_or_default(
        framed,
        parameter::TX_FEE_PER_BYTE_MAX,
    ) {
        return Err(ChainConfigError::BoundViolation(parameter::TX_FEE_PER_BYTE_MIN));
    }
    proof {
        use_type_invariant(framed);
    }
    Ok(framed.content().len())
}

} // verus!
