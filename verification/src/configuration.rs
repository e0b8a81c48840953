//! The chain-configuration module: one retained payload and one commitment flag.
//!
//! Tentative and durable content are never two different values at once. Promotion
//! flips the flag over the same retained bytes, and a durable configuration is set once
//! for the lifetime of the chain.

use vstd::prelude::*;

use crate::acceptance::{accept_content, ChainConfigError, Platform};
use crate::framing::{FramedPayload, PayloadModel};
use crate::resolution::{ActiveConfig, Commitment, ConfigModel};

verus! {

/// What the module holds, and the build it holds it for.
pub struct ModuleModel {
    pub held: Option<(PayloadModel, Commitment)>,
    pub platform: Platform,
}

impl ModuleModel {
    /// What holds of every state: content that is held was framed and accepted.
    pub open spec fn well_formed(self) -> bool {
        self.held matches Some((payload, _)) ==> payload.well_framed() && payload.acceptance(
            self.platform,
        ) is Ok
    }

    /// Whether the configuration is locked.
    pub open spec fn is_durable_locked(self) -> bool {
        self.held matches Some((_, Commitment::Durable))
    }

    /// The configuration that accessors read.
    pub open spec fn active(self) -> Option<ConfigModel> {
        match self.held {
            Some((payload, commitment)) => Some(
                ConfigModel { entries: payload.entries, commitment, platform: self.platform },
            ),
            None => None,
        }
    }

    /// The content region, where it is held under `commitment`.
    pub open spec fn content_held_as(self, commitment: Commitment) -> Option<Seq<u8>> {
        match self.held {
            Some((payload, held_as)) if held_as == commitment => Some(payload.content()),
            _ => None,
        }
    }

    /// The answer to a request to load `payload`.
    pub open spec fn load_verdict(self, payload: Option<PayloadModel>) -> Result<
        (),
        ChainConfigError,
    > {
        if self.is_durable_locked() {
            Err(ChainConfigError::DurableLocked)
        } else {
            match crate::acceptance::acceptance_of(payload, self.platform) {
                Ok(_) => Ok(()),
                Err(fault) => Err(fault),
            }
        }
    }

    /// The state after that request: a refusal leaves it as it was.
    pub open spec fn after_load(
        self,
        payload: Option<PayloadModel>,
        commitment: Commitment,
    ) -> ModuleModel {
        if self.load_verdict(payload) is Ok {
            ModuleModel { held: Some((payload->0, commitment)), ..self }
        } else {
            self
        }
    }

    /// The answer to a request to commit the tentative content.
    pub open spec fn promote_verdict(self) -> Result<(), ChainConfigError> {
        match self.held {
            None => Err(ChainConfigError::NotLoaded),
            Some((_, Commitment::Durable)) => Err(ChainConfigError::DurableLocked),
            Some((_, Commitment::Tentative)) => Ok(()),
        }
    }

    /// The state after that request.
    pub open spec fn after_promote(self) -> ModuleModel {
        match self.held {
            Some((payload, Commitment::Tentative)) => ModuleModel {
                held: Some((payload, Commitment::Durable)),
                ..self
            },
            _ => self,
        }
    }

    /// The state after a request to drop the tentative content.
    pub open spec fn after_discard(self) -> ModuleModel {
        match self.held {
            Some((_, Commitment::Tentative)) => ModuleModel { held: None, ..self },
            _ => self,
        }
    }
}

/// Notified of every state transition, when it happens.
pub trait ConfigChangeSink: Sized {
    /// The sink once it has been told of `config`. One that keeps nothing, or keeps it in
    /// cells, stays as it is.
    open spec fn told(self, config: ConfigModel) -> Self {
        self
    }

    /// Called after the transition, with a handle over the now-current content.
    fn on_configuration_changed(&mut self, config: &ActiveConfig<'_>)
        ensures
            *final(self) == old(self).told(config@),
    ;
}

/// The sink for those who do not observe configuration changes.
pub struct NoopConfigChangeSink;

impl ConfigChangeSink for NoopConfigChangeSink {
    fn on_configuration_changed(&mut self, _config: &ActiveConfig<'_>) {
    }
}

/// The seam that a blockchain is generic over.
///
/// Availability is decided once, when the handle is acquired. When to load, compare,
/// promote or discard is for the blockchain to decide.
pub trait ChainConfigTrait {
    /// What the module holds.
    spec fn model(&self) -> ModuleModel;

    /// The accessor surface over the loaded content, or `None` while none is loaded.
    fn active_configuration(&self) -> (config: Option<ActiveConfig<'_>>)
        ensures
            self.model().well_formed(),
            match config {
                Some(config) => self.model().active() == Some(config@),
                None => self.model().active() is None,
            },
    ;

    /// Accepts `payload` and loads it tentatively, in place of tentative content already
    /// held.
    fn load_tentative(&mut self, payload: Option<FramedPayload>) -> (verdict: Result<
        (),
        ChainConfigError,
    >)
        ensures
            verdict == old(self).model().load_verdict(
                crate::acceptance::optional_model(payload),
            ),
            final(self).model() == old(self).model().after_load(
                crate::acceptance::optional_model(payload),
                Commitment::Tentative,
            ),
    ;

    /// Accepts `payload` and loads it durably.
    fn load_durable(&mut self, payload: Option<FramedPayload>) -> (verdict: Result<
        (),
        ChainConfigError,
    >)
        ensures
            verdict == old(self).model().load_verdict(
                crate::acceptance::optional_model(payload),
            ),
            final(self).model() == old(self).model().after_load(
                crate::acceptance::optional_model(payload),
                Commitment::Durable,
            ),
    ;

    /// Commits the tentative content and locks it. A second promotion is refused.
    fn promote_durable(&mut self) -> (verdict: Result<(), ChainConfigError>)
        ensures
            verdict == old(self).model().promote_verdict(),
            final(self).model() == old(self).model().after_promote(),
    ;

    /// Drops the tentative content. A durable configuration is never destroyed.
    fn discard_tentative(&mut self)
        ensures
            final(self).model() == old(self).model().after_discard(),
    ;

    /// The tentative content region, or `None` unless content is held tentatively.
    fn tentative_content(&self) -> (content: Option<&[u8]>)
        ensures
            match content {
                Some(content) => self.model().content_held_as(Commitment::Tentative) == Some(
                    content@,
                ),
                None => self.model().content_held_as(Commitment::Tentative) is None,
            },
    ;

    /// The durable content region, or `None` until the configuration is locked.
    fn durable_content(&self) -> (content: Option<&[u8]>)
        ensures
            match content {
                Some(content) => self.model().content_held_as(Commitment::Durable) == Some(
                    content@,
                ),
                None => self.model().content_held_as(Commitment::Durable) is None,
            },
    ;

    /// Whether the configuration is locked.
    fn is_durable_locked(&self) -> (locked: bool)
        ensures
            locked == self.model().is_durable_locked(),
    ;
}

/// The retained payload and its commitment.
struct Retention {
    payload: Option<FramedPayload>,
    commitment: Commitment,
    platform: Platform,
}

impl View for Retention {
    type V = ModuleModel;

    closed spec fn view(&self) -> ModuleModel {
        ModuleModel {
            held: match self.payload {
                Some(payload) => Some((payload@, self.commitment)),
                None => None,
            },
            platform: self.platform,
        }
    }
}

impl Retention {
    #[verifier::type_invariant]
    spec fn holds_accepted_content(&self) -> bool {
        self@.well_formed()
    }
}

/// The chain-configuration module.
pub struct ChainConfiguration<Sink: ConfigChangeSink> {
    retention: Retention,
    sink: Sink,
}

impl<Sink: ConfigChangeSink> ChainConfiguration<Sink> {
    /// The sink in its present state.
    pub closed spec fn sink_state(&self) -> Sink {
        self.sink
    }

    /// The sink after a transition to `after`.
    pub open spec fn sink_told(sink: Sink, after: ModuleModel) -> Sink {
        match after.active() {
            Some(config) => sink.told(config),
            None => sink,
        }
    }

    /// A module that holds no configuration.
    pub fn new(sink: Sink, platform: Platform) -> (module: Self)
        ensures
            module.model() == (ModuleModel { held: None, platform }),
            module.sink_state() == sink,
    {
        ChainConfiguration {
            retention: Retention { payload: None, commitment: Commitment::Tentative, platform },
            sink,
        }
    }

    /// The sink that the module was made with.
    pub fn sink(&self) -> (sink: &Sink)
        ensures
            *sink == self.sink_state(),
    {
        &self.sink
    }

    /// Accepts and retains `payload`, then notifies the sink.
    fn load(&mut self, payload: Option<FramedPayload>, commitment: Commitment) -> (verdict: Result<
        (),
        ChainConfigError,
    >)
        ensures
            verdict == old(self).model().load_verdict(
                crate::acceptance::optional_model(payload),
            ),
            final(self).model() == old(self).model().after_load(
                crate::acceptance::optional_model(payload),
                commitment,
            ),
            final(self).sink_state() == if verdict is Ok {
                Self::sink_told(old(self).sink_state(), final(self).model())
            } else {
                old(self).sink_state()
            },
    {
        if self.is_durable_locked() {
            return Err(ChainConfigError::DurableLocked);
        }
        // Acceptance runs before anything is retained, so a refusal leaves the previous
        // state exactly as it was.
        match accept_content(payload.as_ref(), &self.retention.platform) {
            Err(fault) => return Err(fault),
            Ok(_) => {},
        }
        proof {
            if let Some(framed) = &payload {
                use_type_invariant(framed);
            }
        }
        self.retention = Retention { payload, commitment, platform: self.retention.platform };
        self.notify();
        Ok(())
    }

    /// Hands the sink a handle over the content, if there is any.
    fn notify(&mut self)
        ensures
            final(self).model() == old(self).model(),
            final(self).sink_state() == Self::sink_told(
                old(self).sink_state(),
                old(self).model(),
            ),
    {
        if let Some(payload) = &self.retention.payload {
            let config: ActiveConfig<'_> = ActiveConfig::over(
                payload,
                self.retention.commitment,
                self.retention.platform,
            );
            self.sink.on_configuration_changed(&config);
        }
    }

    /// The content region, where it is held under `commitment`.
    fn content_held_as(&self, commitment: Commitment) -> (content: Option<&[u8]>)
        ensures
            match content {
                Some(content) => self.model().content_held_as(commitment) == Some(content@),
                None => self.model().content_held_as(commitment) is None,
            },
    {
        match &self.retention.payload {
            Some(payload) => {
                if self.retention.commitment == commitment {
                    Some(payload.content())
                } else {
                    None
                }
            },
            None => None,
        }
    }
}

impl<Sink: ConfigChangeSink> ChainConfigTrait for ChainConfiguration<Sink> {
    closed spec fn model(&self) -> ModuleModel {
        self.retention@
    }

    fn active_configuration(&self) -> (config: Option<ActiveConfig<'_>>) {
        proof {
            use_type_invariant(&self.retention);
        }
        match &self.retention.payload {
            Some(payload) => Some(
                ActiveConfig::over(payload, self.retention.commitment, self.retention.platform),
            ),
            None => None,
        }
    }

    fn load_tentative(&mut self, payload: Option<FramedPayload>) -> (verdict: Result<
        (),
        ChainConfigError,
    >)
        ensures
            final(self).sink_state() == if verdict is Ok {
                Self::sink_told(old(self).sink_state(), final(self).model())
            } else {
                old(self).sink_state()
            },
    {
        self.load(payload, Commitment::Tentative)
    }

    fn load_durable(&mut self, payload: Option<FramedPayload>) -> (verdict: Result<
        (),
        ChainConfigError,
    >)
        ensures
            final(self).sink_state() == if verdict is Ok {
                Self::sink_told(old(self).sink_state(), final(self).model())
            } else {
                old(self).sink_state()
            },
    {
        self.load(payload, Commitment::Durable)
    }

    fn promote_durable(&mut self) -> (verdict: Result<(), ChainConfigError>)
        ensures
            final(self).sink_state() == if verdict is Ok {
                Self::sink_told(old(self).sink_state(), final(self).model())
            } else {
                old(self).sink_state()
            },
    {
        proof {
            use_type_invariant(&self.retention);
        }
        match &self.retention.payload {
            None => Err(ChainConfigError::NotLoaded),
            Some(_) => match self.retention.commitment {
                Commitment::Durable => Err(ChainConfigError::DurableLocked),
                Commitment::Tentative => {
                    self.retention.commitment = Commitment::Durable;
                    self.notify();
                    Ok(())
                },
            },
        }
    }

    fn discard_tentative(&mut self)
        ensures
            final(self).sink_state() == old(self).sink_state(),
    {
        if self.retention.commitment == Commitment::Tentative {
            self.retention.payload = None;
        }
    }

    fn tentative_content(&self) -> (content: Option<&[u8]>) {
        self.content_held_as(Commitment::Tentative)
    }

    fn durable_content(&self) -> (content: Option<&[u8]>) {
        self.content_held_as(Commitment::Durable)
    }

    fn is_durable_locked(&self) -> (locked: bool) {
        self.retention.payload.is_some() && self.retention.commitment == Commitment::Durable
    }
}

} // verus!
