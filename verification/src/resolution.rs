//! Resolution: from an accessor to a value.
//!
//! A value is resolved through three tiers: the override that the content holds, the
//! code-baked default, and the code-baked fallback literal. The last tier is a
//! constant, so every accessor returns a value. A program that traps, runs out of fuel
//! or computes a value that may not stand is a tier that failed, and resolution moves
//! to the next one.
//!
//! Programs run on a virtual machine outside this library, which is handed in as a
//! function: it takes a program, its arguments and a [`Budget`], and reports a
//! [`ProgramOutcome`].

use vstd::prelude::*;

use crate::acceptance::{bounded, Platform};
use crate::bytes::{narrow_u16, narrow_u32, narrow_u8, read_le, write_le};
use crate::framing::{ConfigValue, EntryModel, FramedPayload};
use crate::parameter;
use crate::registry::{is_allocated, spec, DefaultValue, ParameterSpec, SCORING_MATRIX_LEN};

verus! {

/// Which commitment the loaded content carries.
#[derive(Clone, Copy, Debug, PartialEq, Eq, Structural)]
pub enum Commitment {
    /// Loaded, not yet committed.
    Tentative,
    /// Committed once and locked for the lifetime of the chain.
    Durable,
}

/// The fuel that one program evaluation draws on.
#[derive(Clone, Copy, Debug, PartialEq, Eq, Structural)]
pub enum Budget {
    /// A budget of its own, of this many units.
    Fresh(u32),
    /// What is left of the budget of the evaluation that asked.
    Inherited,
}

/// How a program evaluation ended.
#[derive(Clone, Copy, Debug, PartialEq, Eq, Structural)]
pub enum ProgramOutcome {
    /// The program returned a value.
    Completed(u64),
    /// The program did something undefined.
    Trapped,
    /// The budget was exhausted first.
    OutOfFuel,
}

/// Whether `run` may be handed every program.
pub open spec fn runs_anything<R: Fn(&[u8], &[u64], Budget) -> ProgramOutcome>(run: R) -> bool {
    forall|program: &[u8], args: &[u64], budget: Budget| #[trigger]
        call_requires(run, (program, args, budget))
}

/// Whether `outcome` is what `run` reports of a program on these arguments and this
/// budget.
pub open spec fn reports<R: Fn(&[u8], &[u64], Budget) -> ProgramOutcome>(
    run: R,
    program: Seq<u8>,
    args: Seq<u64>,
    budget: Budget,
    outcome: ProgramOutcome,
) -> bool {
    exists|p: &[u8], a: &[u64]|
        p@ == program && a@ == args && #[trigger] call_ensures(run, (p, a, budget), outcome)
}

/// The configuration that an accessor reads: the entries of the content, the
/// commitment that it carries, and the build.
pub struct ConfigModel {
    pub entries: Seq<EntryModel>,
    pub commitment: Commitment,
    pub platform: Platform,
}

impl ConfigModel {
    /// The entry that overrides `id`, if there is one.
    pub open spec fn override_of(self, id: u8) -> Option<EntryModel> {
        crate::framing::find_entry(self.entries, id)
    }

    /// The program that overrides a parameter, where one may.
    pub open spec fn override_program(self, record: ParameterSpec) -> Option<Seq<u8>> {
        match self.override_of(record.id) {
            Some(entry) if entry.bytecode && record.bytecode_allowed => Some(entry.value),
            _ => None,
        }
    }

    /// What a run leaves standing: a value, if the program completed with one that the
    /// bound of the parameter admits.
    pub open spec fn standing(self, record: ParameterSpec, outcome: ProgramOutcome) -> Option<
        u64,
    > {
        match outcome {
            ProgramOutcome::Completed(value) if self.platform.admits_computed(
                record.id,
                value as nat,
            ) => Some(value),
            _ => None,
        }
    }

    /// What an override entry comes to, given how its program ended if it is one.
    pub open spec fn evaluation(
        self,
        entry: EntryModel,
        record: ParameterSpec,
        outcome: ProgramOutcome,
    ) -> Option<u64> {
        if entry.bytecode {
            if record.bytecode_allowed {
                self.standing(record, outcome)
            } else {
                None
            }
        } else if entry.value.len() == record.width {
            Some(entry.number() as u64)
        } else {
            None
        }
    }

    /// The first tier: the override, given how its program ended if it is one.
    pub open spec fn tier_one(self, record: ParameterSpec, outcome: ProgramOutcome) -> Option<
        u64,
    > {
        match self.override_of(record.id) {
            Some(entry) => self.evaluation(entry, record, outcome),
            None => None,
        }
    }

    /// The second tier: the code-baked default, given how its program ended if it is
    /// one.
    pub open spec fn tier_two(self, record: ParameterSpec, outcome: ProgramOutcome) -> Option<
        u64,
    > {
        match record.default {
            DefaultValue::Literal(value) => Some(value),
            DefaultValue::Program(_) => self.standing(record, outcome),
        }
    }

    /// The value of a parameter, given how the program of each tier ended.
    pub open spec fn value_of(
        self,
        record: ParameterSpec,
        first: ProgramOutcome,
        second: ProgramOutcome,
    ) -> u64 {
        match self.tier_one(record, first) {
            Some(value) => value,
            None => match self.tier_two(record, second) {
                Some(value) => value,
                None => record.fallback,
            },
        }
    }

    /// The value of a parameter that no program may override: what the content declares,
    /// or the fallback literal.
    pub open spec fn declared_value(self, id: u8) -> u64 {
        match self.override_of(id) {
            Some(entry) if !entry.bytecode && entry.value.len() == ParameterSpec::registered(
                id,
            ).width => entry.number() as u64,
            _ => ParameterSpec::registered(id).fallback,
        }
    }

    /// The budget that one program evaluation may spend.
    pub open spec fn fuel_limit(self) -> u32 {
        crate::bytes::saturate_u32(self.declared_value(parameter::VM_FUEL_LIMIT))
    }

    /// Whether the two outcomes are what `run` reports: the override on `budget`, and
    /// the default, where resolution comes to it, on a fresh one.
    pub open spec fn runs_report<R: Fn(&[u8], &[u64], Budget) -> ProgramOutcome>(
        self,
        record: ParameterSpec,
        args: Seq<u64>,
        budget: Budget,
        run: R,
        first: ProgramOutcome,
        second: ProgramOutcome,
    ) -> bool {
        &&& self.override_program(record) matches Some(program) ==> reports(
            run,
            program,
            args,
            budget,
            first,
        )
        &&& self.tier_one(record, first) is None ==> (record.default matches DefaultValue::Program(
            program,
        ) ==> reports(run, program@, args, Budget::Fresh(self.fuel_limit()), second))
    }

    /// Whether a parameter resolves to `value` when programs end as `run` reports.
    pub open spec fn resolves<R: Fn(&[u8], &[u64], Budget) -> ProgramOutcome>(
        self,
        record: ParameterSpec,
        args: Seq<u64>,
        budget: Budget,
        run: R,
        value: u64,
    ) -> bool {
        exists|first: ProgramOutcome, second: ProgramOutcome|
            #[trigger] self.runs_report(record, args, budget, run, first, second) && value
                == self.value_of(record, first, second)
    }

    /// Whether an accessor of `id` reads `value`: resolution on a fresh budget.
    pub open spec fn reads<R: Fn(&[u8], &[u64], Budget) -> ProgramOutcome>(
        self,
        id: u8,
        args: Seq<u64>,
        run: R,
        value: u64,
    ) -> bool {
        self.resolves(
            ParameterSpec::registered(id),
            args,
            Budget::Fresh(self.fuel_limit()),
            run,
            value,
        )
    }
}

/// Accessor surface over the loaded configuration.
///
/// It borrows the module, so it cannot outlive the state that it reads.
pub struct ActiveConfig<'a> {
    framed: &'a FramedPayload,
    commitment: Commitment,
    platform: Platform,
}

impl<'a> View for ActiveConfig<'a> {
    type V = ConfigModel;

    closed spec fn view(&self) -> ConfigModel {
        ConfigModel {
            entries: self.framed@.entries,
            commitment: self.commitment,
            platform: self.platform,
        }
    }
}

impl<'a> ActiveConfig<'a> {
    /// The accessor surface over `framed`.
    pub fn over(framed: &'a FramedPayload, commitment: Commitment, platform: Platform) -> (config:
        ActiveConfig<'a>)
        ensures
            config@ == (ConfigModel { entries: framed@.entries, commitment, platform }),
    {
        ActiveConfig { framed, commitment, platform }
    }

    /// Which commitment produced these values.
    pub fn commitment(&self) -> (commitment: Commitment)
        ensures
            commitment == self@.commitment,
    {
        self.commitment
    }

    /// The override entry of `id`, if the content has one.
    pub fn entry(&self, id: u8) -> (found: Option<&'a ConfigValue>)
        ensures
            match found {
                Some(entry) => self@.override_of(id) == Some(entry@),
                None => self@.override_of(id) is None,
            },
    {
        self.framed.entry(id)
    }

    /// What a run leaves standing: a value, if the program completed with one that the
    /// bound of the parameter admits.
    pub fn standing(&self, record: &ParameterSpec, outcome: ProgramOutcome) -> (value: Option<u64>)
        ensures
            value == self@.standing(*record, outcome),
    {
        match outcome {
            ProgramOutcome::Completed(value) => bounded(record.id, value, &self.platform),
            ProgramOutcome::Trapped => None,
            ProgramOutcome::OutOfFuel => None,
        }
    }

    /// Evaluates one override entry. `None` means that the tier failed.
    pub fn evaluate<R: Fn(&[u8], &[u64], Budget) -> ProgramOutcome>(
        &self,
        entry: &ConfigValue,
        record: &ParameterSpec,
        args: &[u64],
        budget: Budget,
        run: &R,
    ) -> (value: Option<u64>)
        requires
            runs_anything(*run),
        ensures
            exists|outcome: ProgramOutcome|
                #![trigger self@.evaluation(entry@, *record, outcome)]
                {
                    &&& entry@.bytecode && record.bytecode_allowed ==> reports(
                        *run,
                        entry@.value,
                        args@,
                        budget,
                        outcome,
                    )
                    &&& value == self@.evaluation(entry@, *record, outcome)
                },
    {
        let ghost unasked = ProgramOutcome::Trapped;
        if entry.bytecode {
            if !record.bytecode_allowed {
                assert(self@.evaluation(entry@, *record, unasked) is None);
                return None;
            }
            let outcome: ProgramOutcome = run(entry.value.as_slice(), args, budget);
            let value: Option<u64> = self.standing(record, outcome);
            assert(self@.evaluation(entry@, *record, outcome) == value);
            value
        } else if entry.value.len() == record.width as usize {
            let value: u64 = read_le(entry.value.as_slice());
            assert(self@.evaluation(entry@, *record, unasked) == Some(value));
            Some(value)
        } else {
            assert(self@.evaluation(entry@, *record, unasked) is None);
            None
        }
    }

    /// The value that the content declares for a parameter that no program may
    /// override, or its code-baked default.
    fn declared(&self, id: u8) -> (value: u64)
        requires
            ParameterSpec::allocates(id),
        ensures
            value == self@.declared_value(id),
    {
        let record: ParameterSpec = spec(id);
        match self.entry(id) {
            Some(entry) => {
                if !entry.bytecode && entry.value.len() == record.width as usize {
                    return read_le(entry.value.as_slice());
                }
            },
            None => {},
        }
        record.fallback
    }

    /// The declared `vm_fuel_limit`, or its code-baked default.
    ///
    /// The parameter is literal-only, so that bounding an evaluation never takes an
    /// evaluation.
    pub fn declared_fuel_limit(&self) -> (limit: u64)
        ensures
            limit == self@.declared_value(parameter::VM_FUEL_LIMIT),
    {
        self.declared(parameter::VM_FUEL_LIMIT)
    }

    /// The budget that one program evaluation may spend.
    pub fn fuel_limit(&self) -> (limit: u32)
        ensures
            limit == self@.fuel_limit(),
    {
        narrow_u32(self.declared_fuel_limit())
    }

    /// Resolves a parameter through the three tiers, the override drawing on `budget`.
    ///
    /// A program default gets a fresh budget: were it to inherit an exhausted one, it
    /// could never run in the case that it exists for.
    pub fn resolve_with<R: Fn(&[u8], &[u64], Budget) -> ProgramOutcome>(
        &self,
        record: &ParameterSpec,
        args: &[u64],
        budget: Budget,
        run: &R,
    ) -> (value: u64)
        requires
            runs_anything(*run),
        ensures
            self@.resolves(*record, args@, budget, *run, value),
    {
        let ghost mut first = ProgramOutcome::Trapped;
        let ghost unasked = ProgramOutcome::Trapped;
        match self.entry(record.id) {
            Some(entry) => {
                let evaluated: Option<u64> = self.evaluate(entry, record, args, budget, run);
                proof {
                    first = choose|outcome: ProgramOutcome|
                        #![trigger self@.evaluation(entry@, *record, outcome)]
                        {
                            &&& entry@.bytecode && record.bytecode_allowed ==> reports(
                                *run,
                                entry@.value,
                                args@,
                                budget,
                                outcome,
                            )
                            &&& evaluated == self@.evaluation(entry@, *record, outcome)
                        };
                }
                if let Some(value) = evaluated {
                    assert(self@.runs_report(*record, args@, budget, *run, first, unasked));
                    return value;
                }
            },
            None => {},
        }
        assert(self@.tier_one(*record, first) is None);
        match record.default {
            DefaultValue::Literal(value) => {
                assert(self@.runs_report(*record, args@, budget, *run, first, unasked));
                value
            },
            DefaultValue::Program(program) => {
                let limit: u32 = self.fuel_limit();
                let second: ProgramOutcome = run(program, args, Budget::Fresh(limit));
                assert(self@.runs_report(*record, args@, budget, *run, first, second));
                match self.standing(record, second) {
                    Some(value) => value,
                    None => record.fallback,
                }
            },
        }
    }

    /// Resolves `id` on a fresh budget.
    pub fn resolve<R: Fn(&[u8], &[u64], Budget) -> ProgramOutcome>(
        &self,
        id: u8,
        args: &[u64],
        run: &R,
    ) -> (value: u64)
        requires
            ParameterSpec::allocates(id),
            runs_anything(*run),
        ensures
            self@.reads(id, args@, *run, value),
    {
        let limit: u32 = self.fuel_limit();
        self.resolve_with(&spec(id), args, Budget::Fresh(limit), run)
    }

    /// Resolves a parameter that takes no argument.
    fn read<R: Fn(&[u8], &[u64], Budget) -> ProgramOutcome>(&self, id: u8, run: &R) -> (value: u64)
        requires
            ParameterSpec::allocates(id),
            runs_anything(*run),
        ensures
            self@.reads(id, Seq::empty(), *run, value),
    {
        let none: [u64; 0] = [];
        assert(none@ =~= Seq::<u64>::empty());
        self.resolve(id, none.as_slice(), run)
    }

    /// Answers a program that asks its host for something.
    ///
    /// The one function on offer resolves a parameter. The registry holds the arity, so
    /// an argument count that contradicts it is declined here. The nested evaluation
    /// draws on the budget of the one that asked, so a program cannot evade its bound by
    /// composing others.
    pub fn call<R: Fn(&[u8], &[u64], Budget) -> ProgramOutcome>(
        &self,
        func_id: u16,
        selector: u8,
        args: &[u64],
        run: &R,
    ) -> (answer: Option<u64>)
        requires
            runs_anything(*run),
        ensures
            answer is Some <==> {
                &&& func_id == self@.platform.resolve_parameter
                &&& ParameterSpec::allocates(selector)
                &&& args@.len() == ParameterSpec::registered(selector).args
            },
            answer matches Some(value) ==> self@.resolves(
                ParameterSpec::registered(selector),
                args@,
                Budget::Inherited,
                *run,
                value,
            ),
    {
        if func_id != self.platform.resolve_parameter || !is_allocated(selector) {
            return None;
        }
        let record: ParameterSpec = spec(selector);
        if args.len() != record.args as usize {
            return None;
        }
        Some(self.resolve_with(&record, args, Budget::Inherited, run))
    }

    // Blockchain parameters.

    /// Wait between created blocks, milliseconds.
    pub fn inter_block_interval_ms<R: Fn(&[u8], &[u64], Budget) -> ProgramOutcome>(
        &self,
        run: &R,
    ) -> (value: u32)
        requires
            runs_anything(*run),
        ensures
            exists|exact: u64|
                #[trigger] self@.reads(
                    parameter::INTER_BLOCK_INTERVAL_MS,
                    Seq::empty(),
                    *run,
                    exact,
                ) && value == crate::bytes::saturate_u32(exact),
    {
        let exact: u64 = self.read(parameter::INTER_BLOCK_INTERVAL_MS, run);
        narrow_u32(exact)
    }

    /// Length of the grace-period window, milliseconds.
    pub fn grace_period_window_ms<R: Fn(&[u8], &[u64], Budget) -> ProgramOutcome>(
        &self,
        run: &R,
    ) -> (value: u32)
        requires
            runs_anything(*run),
        ensures
            exists|exact: u64|
                #[trigger] self@.reads(
                    parameter::GRACE_PERIOD_WINDOW_MS,
                    Seq::empty(),
                    *run,
                    exact,
                ) && value == crate::bytes::saturate_u32(exact),
    {
        let exact: u64 = self.read(parameter::GRACE_PERIOD_WINDOW_MS, run);
        narrow_u32(exact)
    }

    /// Block-size limit, bytes.
    pub fn block_size_limit<R: Fn(&[u8], &[u64], Budget) -> ProgramOutcome>(
        &self,
        run: &R,
    ) -> (value: u16)
        requires
            runs_anything(*run),
        ensures
            exists|exact: u64|
                #[trigger] self@.reads(
                    parameter::BLOCK_SIZE_LIMIT,
                    Seq::empty(),
                    *run,
                    exact,
                ) && value == crate::bytes::saturate_u16(exact),
    {
        let exact: u64 = self.read(parameter::BLOCK_SIZE_LIMIT, run);
        narrow_u16(exact)
    }

    /// Maximum UTXO outputs per block.
    pub fn max_utxo_outputs(&self) -> (value: u8)
        ensures
            value == crate::bytes::saturate_u8(self@.declared_value(parameter::MAX_BLOCK_UTXO_OUTPUT)),
    {
        narrow_u8(self.declared(parameter::MAX_BLOCK_UTXO_OUTPUT))
    }

    /// Maximum aggregated signatures per approval-evidence block.
    pub fn max_aggregated_signatures(&self) -> (value: u8)
        ensures
            value == crate::bytes::saturate_u8(self@.declared_value(parameter::MAX_AGGREGATED_SIGNATURES)),
    {
        narrow_u8(self.declared(parameter::MAX_AGGREGATED_SIGNATURES))
    }

    /// Per-credit vote value and denominator of the anti-capture interest, never zero.
    pub fn vote_scale(&self) -> (value: u16)
        ensures
            value == {
                let declared = crate::bytes::saturate_u16(
                    self@.declared_value(parameter::VOTE_SCALE),
                );
                if declared == 0 {
                    1000
                } else {
                    declared
                }
            },
            value != 0,
    {
        let declared: u16 = narrow_u16(self.declared(parameter::VOTE_SCALE));
        if declared == 0 {
            1000
        } else {
            declared
        }
    }

    /// Anti-capture vote-interest rate.
    pub fn vote_interest<R: Fn(&[u8], &[u64], Budget) -> ProgramOutcome>(
        &self,
        run: &R,
    ) -> (value: u8)
        requires
            runs_anything(*run),
        ensures
            exists|exact: u64|
                #[trigger] self@.reads(
                    parameter::VOTE_INTEREST,
                    Seq::empty(),
                    *run,
                    exact,
                ) && value == crate::bytes::saturate_u8(exact),
    {
        let exact: u64 = self.read(parameter::VOTE_INTEREST, run);
        narrow_u8(exact)
    }

    /// Per-head parent-recovery retry window, milliseconds.
    pub fn parent_recovery_per_head_retry_interval_ms<R: Fn(&[u8], &[u64], Budget) -> ProgramOutcome>(
        &self,
        run: &R,
    ) -> (value: u32)
        requires
            runs_anything(*run),
        ensures
            exists|exact: u64|
                #[trigger] self@.reads(
                    parameter::PARENT_RECOVERY_PER_HEAD_RETRY_INTERVAL_MS,
                    Seq::empty(),
                    *run,
                    exact,
                ) && value == crate::bytes::saturate_u32(exact),
    {
        let exact: u64 = self.read(parameter::PARENT_RECOVERY_PER_HEAD_RETRY_INTERVAL_MS, run);
        narrow_u32(exact)
    }

    /// Cooldown between parent-recovery emissions, milliseconds.
    pub fn parent_recovery_min_emit_interval_ms<R: Fn(&[u8], &[u64], Budget) -> ProgramOutcome>(
        &self,
        run: &R,
    ) -> (value: u32)
        requires
            runs_anything(*run),
        ensures
            exists|exact: u64|
                #[trigger] self@.reads(
                    parameter::PARENT_RECOVERY_MIN_EMIT_INTERVAL_MS,
                    Seq::empty(),
                    *run,
                    exact,
                ) && value == crate::bytes::saturate_u32(exact),
    {
        let exact: u64 = self.read(parameter::PARENT_RECOVERY_MIN_EMIT_INTERVAL_MS, run);
        narrow_u32(exact)
    }

    /// Required support count, clamped to the chain's own `max_aggregated_signatures`.
    ///
    /// The ceiling of the clamp is what the chain declares, not what the build can do, so
    /// every node clamps alike.
    pub fn required_support(&self) -> (value: u8)
        ensures
            value == {
                let wanted = crate::bytes::saturate_u8(
                    self@.declared_value(parameter::REQUIRED_SUPPORT),
                );
                let ceiling = crate::bytes::saturate_u8(
                    self@.declared_value(parameter::MAX_AGGREGATED_SIGNATURES),
                );
                if wanted <= ceiling {
                    wanted
                } else {
                    ceiling
                }
            },
    {
        let wanted: u8 = narrow_u8(self.declared(parameter::REQUIRED_SUPPORT));
        let ceiling: u8 = self.max_aggregated_signatures();
        if wanted <= ceiling {
            wanted
        } else {
            ceiling
        }
    }

    /// Block fill threshold, percent.
    pub fn block_fill_threshold_percent<R: Fn(&[u8], &[u64], Budget) -> ProgramOutcome>(
        &self,
        run: &R,
    ) -> (value: u8)
        requires
            runs_anything(*run),
        ensures
            exists|exact: u64|
                #[trigger] self@.reads(
                    parameter::BLOCK_FILL_THRESHOLD_PERCENT,
                    Seq::empty(),
                    *run,
                    exact,
                ) && value == crate::bytes::saturate_u8(exact),
    {
        let exact: u64 = self.read(parameter::BLOCK_FILL_THRESHOLD_PERCENT, run);
        narrow_u8(exact)
    }

    /// Active-chain window length.
    pub fn active_chain_length(&self) -> (value: u16)
        ensures
            value == crate::bytes::saturate_u16(self@.declared_value(parameter::ACTIVE_CHAIN_LENGTH)),
    {
        narrow_u16(self.declared(parameter::ACTIVE_CHAIN_LENGTH))
    }

    /// Mempool replenishment interval, milliseconds.
    pub fn mempool_replenishment_interval_ms<R: Fn(&[u8], &[u64], Budget) -> ProgramOutcome>(
        &self,
        run: &R,
    ) -> (value: u32)
        requires
            runs_anything(*run),
        ensures
            exists|exact: u64|
                #[trigger] self@.reads(
                    parameter::MEMPOOL_REPLENISHMENT_INTERVAL_MS,
                    Seq::empty(),
                    *run,
                    exact,
                ) && value == crate::bytes::saturate_u32(exact),
    {
        let exact: u64 = self.read(parameter::MEMPOOL_REPLENISHMENT_INTERVAL_MS, run);
        narrow_u32(exact)
    }

    /// Carry-forward custodian fee.
    pub fn custodian_fee<R: Fn(&[u8], &[u64], Budget) -> ProgramOutcome>(
        &self,
        run: &R,
    ) -> (value: u64)
        requires
            runs_anything(*run),
        ensures
            self@.reads(parameter::CUSTODIAN_FEE, Seq::empty(), *run, value),
    {
        let exact: u64 = self.read(parameter::CUSTODIAN_FEE, run);
        exact
    }

    /// Registration price at a given registered-node count.
    pub fn registration_price<R: Fn(&[u8], &[u64], Budget) -> ProgramOutcome>(
        &self,
        registered_nodes: u32,
        run: &R,
    ) -> (value: u64)
        requires
            runs_anything(*run),
        ensures
            self@.reads(
                parameter::REGISTRATION_PRICE,
                seq![registered_nodes as u64],
                *run,
                value,
            ),
    {
        let args: [u64; 1] = [registered_nodes as u64];
        assert(args@ =~= seq![registered_nodes as u64]);
        self.resolve(parameter::REGISTRATION_PRICE, args.as_slice(), run)
    }

    /// Minimum transaction fee per byte.
    pub fn tx_fee_per_byte_min<R: Fn(&[u8], &[u64], Budget) -> ProgramOutcome>(
        &self,
        run: &R,
    ) -> (value: u64)
        requires
            runs_anything(*run),
        ensures
            self@.reads(parameter::TX_FEE_PER_BYTE_MIN, Seq::empty(), *run, value),
    {
        let exact: u64 = self.read(parameter::TX_FEE_PER_BYTE_MIN, run);
        exact
    }

    /// Maximum transaction fee per byte.
    pub fn tx_fee_per_byte_max<R: Fn(&[u8], &[u64], Budget) -> ProgramOutcome>(
        &self,
        run: &R,
    ) -> (value: u64)
        requires
            runs_anything(*run),
        ensures
            self@.reads(parameter::TX_FEE_PER_BYTE_MAX, Seq::empty(), *run, value),
    {
        let exact: u64 = self.read(parameter::TX_FEE_PER_BYTE_MAX, run);
        exact
    }

    /// Deviation-replay insertion delay, milliseconds.
    pub fn deviation_replay_insertion_delay_ms<R: Fn(&[u8], &[u64], Budget) -> ProgramOutcome>(
        &self,
        run: &R,
    ) -> (value: u32)
        requires
            runs_anything(*run),
        ensures
            exists|exact: u64|
                #[trigger] self@.reads(
                    parameter::DEVIATION_REPLAY_INSERTION_DELAY_MS,
                    Seq::empty(),
                    *run,
                    exact,
                ) && value == crate::bytes::saturate_u32(exact),
    {
        let exact: u64 = self.read(parameter::DEVIATION_REPLAY_INSERTION_DELAY_MS, run);
        narrow_u32(exact)
    }

    /// Replay-block reward.
    pub fn replay_block_reward<R: Fn(&[u8], &[u64], Budget) -> ProgramOutcome>(
        &self,
        run: &R,
    ) -> (value: u64)
        requires
            runs_anything(*run),
        ensures
            self@.reads(parameter::REPLAY_BLOCK_REWARD, Seq::empty(), *run, value),
    {
        let exact: u64 = self.read(parameter::REPLAY_BLOCK_REWARD, run);
        exact
    }

    // Radio parameters.

    /// Minimum interval between echo requests, minutes.
    pub fn echo_request_minimal_interval<R: Fn(&[u8], &[u64], Budget) -> ProgramOutcome>(
        &self,
        run: &R,
    ) -> (value: u16)
        requires
            runs_anything(*run),
        ensures
            exists|exact: u64|
                #[trigger] self@.reads(
                    parameter::ECHO_REQUEST_MINIMAL_INTERVAL,
                    Seq::empty(),
                    *run,
                    exact,
                ) && value == crate::bytes::saturate_u16(exact),
    {
        let exact: u64 = self.read(parameter::ECHO_REQUEST_MINIMAL_INTERVAL, run);
        narrow_u16(exact)
    }

    /// Target interval between echo messages, seconds.
    pub fn echo_messages_target_interval<R: Fn(&[u8], &[u64], Budget) -> ProgramOutcome>(
        &self,
        run: &R,
    ) -> (value: u8)
        requires
            runs_anything(*run),
        ensures
            exists|exact: u64|
                #[trigger] self@.reads(
                    parameter::ECHO_MESSAGES_TARGET_INTERVAL,
                    Seq::empty(),
                    *run,
                    exact,
                ) && value == crate::bytes::saturate_u8(exact),
    {
        let exact: u64 = self.read(parameter::ECHO_MESSAGES_TARGET_INTERVAL, run);
        narrow_u8(exact)
    }

    /// Echo-gathering timeout, minutes.
    pub fn echo_gathering_timeout<R: Fn(&[u8], &[u64], Budget) -> ProgramOutcome>(
        &self,
        run: &R,
    ) -> (value: u8)
        requires
            runs_anything(*run),
        ensures
            exists|exact: u64|
                #[trigger] self@.reads(
                    parameter::ECHO_GATHERING_TIMEOUT,
                    Seq::empty(),
                    *run,
                    exact,
                ) && value == crate::bytes::saturate_u8(exact),
    {
        let exact: u64 = self.read(parameter::ECHO_GATHERING_TIMEOUT, run);
        narrow_u8(exact)
    }

    /// Delay between transmitted packets, milliseconds.
    pub fn delay_between_tx_packets<R: Fn(&[u8], &[u64], Budget) -> ProgramOutcome>(
        &self,
        run: &R,
    ) -> (value: u16)
        requires
            runs_anything(*run),
        ensures
            exists|exact: u64|
                #[trigger] self@.reads(
                    parameter::DELAY_BETWEEN_TX_PACKETS,
                    Seq::empty(),
                    *run,
                    exact,
                ) && value == crate::bytes::saturate_u16(exact),
    {
        let exact: u64 = self.read(parameter::DELAY_BETWEEN_TX_PACKETS, run);
        narrow_u16(exact)
    }

    /// Delay between transmitted messages, seconds.
    pub fn delay_between_tx_messages<R: Fn(&[u8], &[u64], Budget) -> ProgramOutcome>(
        &self,
        run: &R,
    ) -> (value: u8)
        requires
            runs_anything(*run),
        ensures
            exists|exact: u64|
                #[trigger] self@.reads(
                    parameter::DELAY_BETWEEN_TX_MESSAGES,
                    Seq::empty(),
                    *run,
                    exact,
                ) && value == crate::bytes::saturate_u8(exact),
    {
        let exact: u64 = self.read(parameter::DELAY_BETWEEN_TX_MESSAGES, run);
        narrow_u8(exact)
    }

    /// Relay-position delay, seconds.
    pub fn relay_position_delay<R: Fn(&[u8], &[u64], Budget) -> ProgramOutcome>(
        &self,
        run: &R,
    ) -> (value: u8)
        requires
            runs_anything(*run),
        ensures
            exists|exact: u64|
                #[trigger] self@.reads(
                    parameter::RELAY_POSITION_DELAY,
                    Seq::empty(),
                    *run,
                    exact,
                ) && value == crate::bytes::saturate_u8(exact),
    {
        let exact: u64 = self.read(parameter::RELAY_POSITION_DELAY, run);
        narrow_u8(exact)
    }

    /// Encoded connection-quality scoring matrix, carried verbatim.
    pub fn scoring_matrix(&self) -> (matrix: [u8; SCORING_MATRIX_LEN])
        ensures
            matrix@ == crate::bytes::le_bytes(
                self@.declared_value(parameter::SCORING_MATRIX) as nat,
                SCORING_MATRIX_LEN as nat,
            ),
    {
        let value: u64 = self.declared(parameter::SCORING_MATRIX);
        let bytes: Vec<u8> = write_le(value, SCORING_MATRIX_LEN);
        proof {
            crate::bytes::lemma_le_bytes_len(value as nat, SCORING_MATRIX_LEN as nat);
        }
        let matrix: [u8; SCORING_MATRIX_LEN] = [bytes[0], bytes[1], bytes[2], bytes[3], bytes[4]];
        assert(matrix@ =~= bytes@);
        matrix
    }

    /// Retry interval for missing packets, seconds.
    pub fn retry_interval_for_missing_packets<R: Fn(&[u8], &[u64], Budget) -> ProgramOutcome>(
        &self,
        run: &R,
    ) -> (value: u8)
        requires
            runs_anything(*run),
        ensures
            exists|exact: u64|
                #[trigger] self@.reads(
                    parameter::RETRY_INTERVAL_FOR_MISSING_PACKETS,
                    Seq::empty(),
                    *run,
                    exact,
                ) && value == crate::bytes::saturate_u8(exact),
    {
        let exact: u64 = self.read(parameter::RETRY_INTERVAL_FOR_MISSING_PACKETS, run);
        narrow_u8(exact)
    }

    /// Maximum randomised transmit delay, milliseconds.
    pub fn tx_maximum_random_delay<R: Fn(&[u8], &[u64], Budget) -> ProgramOutcome>(
        &self,
        run: &R,
    ) -> (value: u16)
        requires
            runs_anything(*run),
        ensures
            exists|exact: u64|
                #[trigger] self@.reads(
                    parameter::TX_MAXIMUM_RANDOM_DELAY,
                    Seq::empty(),
                    *run,
                    exact,
                ) && value == crate::bytes::saturate_u16(exact),
    {
        let exact: u64 = self.read(parameter::TX_MAXIMUM_RANDOM_DELAY, run);
        narrow_u16(exact)
    }

    // Parameters of the virtual machine.

    /// Fuel budget of one program evaluation.
    pub fn vm_fuel_limit(&self) -> (value: u32)
        ensures
            value == self@.fuel_limit(),
    {
        self.fuel_limit()
    }
}

} // verus!
