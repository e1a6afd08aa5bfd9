//! One session: what the agent does with each message of the Control Plane,
//! and the heartbeats that it sends meanwhile.

use vstd::prelude::*;
use vstd::string::StringExecFns;

use crate::agent::AgentEvent;
use crate::proto::{
    whole_timestamp, AgentKind, AgentMessage, ConfigAck, ConfigUpdate, CredentialRotation,
    Heartbeat, ServerKind, ServerMessage, Timestamp,
};
use crate::rejection::{Cause, SessionError};
use crate::time::UtcTime;

verus! {

broadcast use vstd::string::group_string_axioms;

/// What a message of the Control Plane asks for.
pub enum Inbound<B, Q> {
    /// Save, apply and acknowledge a config.
    Config(ConfigPush<B>),
    /// Put rotated credentials to use and store them.
    Rotate(CredentialRotation),
    /// Publish a quota status.
    Quota(Q),
    /// End the session with an error.
    Quarantined(SessionError),
    /// Nothing.
    Ignore,
}

/// `r` is what the message asks for. Commands, and requests for diagnostics and
/// logs, ask for nothing; nor does a rotation that brings no token.
pub open spec fn answers<B, Q>(r: Inbound<B, Q>, msg: ServerMessage<B, Q>, wired: bool) -> bool {
    match msg.kind {
        Some(ServerKind::ConfigUpdate(update)) => r matches Inbound::Config(push) && push@
            == PushView::begun(update, wired),
        Some(ServerKind::CredentialRotation(rotation)) => if rotation.instance_jwt@.len() > 0 {
            r == Inbound::<B, Q>::Rotate(rotation)
        } else {
            r is Ignore
        },
        Some(ServerKind::Quarantine { reason }) => r matches Inbound::Quarantined(e) && e.text@
            == "quarantined: "@ + reason@ && !e.is_rejection(),
        Some(ServerKind::QuotaStatus(quota)) => r == Inbound::<B, Q>::Quota(quota),
        _ => r is Ignore,
    }
}

/// What a message asks for, where an applier for configs is wired or not.
pub fn on_message<B, Q>(msg: ServerMessage<B, Q>, wired: bool) -> (r: Inbound<B, Q>)
    ensures
        answers(r, msg, wired),
{
    match msg.kind {
        Some(ServerKind::ConfigUpdate(update)) => Inbound::Config(ConfigPush::begin(update, wired)),
        Some(ServerKind::CredentialRotation(rotation)) => {
            if rotation.instance_jwt.as_str().is_empty() {
                Inbound::Ignore
            } else {
                Inbound::Rotate(rotation)
            }
        },
        Some(ServerKind::Quarantine { reason }) => {
            let text: String = "quarantined: ".to_owned().concat(reason.as_str());
            let mut causes: Vec<Cause> = Vec::new();
            causes.push(Cause::Other);
            Inbound::Quarantined(SessionError { text, causes })
        },
        Some(ServerKind::QuotaStatus(quota)) => Inbound::Quota(quota),
        Some(ServerKind::Command { .. }) => Inbound::Ignore,
        Some(ServerKind::DiagnosticRequest) => Inbound::Ignore,
        Some(ServerKind::LogRequest) => Inbound::Ignore,
        None => Inbound::Ignore,
    }
}

/// The next thing to do with a pushed config.
#[derive(Clone, Copy, Debug, PartialEq, Eq, Structural)]
pub enum PushStep {
    /// Save the bundle as the last known good one.
    Save,
    /// Apply the bundle.
    Apply,
    /// Publish the outcome and acknowledge.
    Finish,
}

/// How far a pushed config has come.
pub struct PushView<B> {
    pub hash: Seq<char>,
    pub bundle: Option<B>,
    /// An applier is wired.
    pub wired: bool,
    /// Saving was tried.
    pub saved: bool,
    /// What the applier said, once it was asked: no word, or why it refused.
    pub applied: Option<Result<(), Seq<char>>>,
}

impl<B> PushView<B> {
    /// A config that has just arrived.
    pub open spec fn begun(update: ConfigUpdate<B>, wired: bool) -> PushView<B> {
        PushView {
            hash: update.config_hash@,
            bundle: update.bundle,
            wired,
            saved: false,
            applied: None,
        }
    }

    /// The next thing to do. Without a bundle there is nothing to save, and
    /// without an applier nothing to apply.
    pub open spec fn step(self) -> PushStep {
        if self.bundle is Some && !self.saved {
            PushStep::Save
        } else if self.bundle is Some && self.wired && self.applied is None {
            PushStep::Apply
        } else {
            PushStep::Finish
        }
    }

    /// The push once saving was tried, with success or not.
    pub open spec fn after_save(self) -> PushView<B> {
        if self.step() is Save {
            PushView { saved: true, ..self }
        } else {
            self
        }
    }

    /// The push once the applier has answered.
    pub open spec fn after_apply(self, answer: Result<(), Seq<char>>) -> PushView<B> {
        if self.step() is Apply {
            PushView { applied: Some(answer), ..self }
        } else {
            self
        }
    }

    /// The config is in effect, as far as the host is concerned: nothing was to
    /// be applied, or the applier took it.
    pub open spec fn active(self) -> bool {
        !(self.applied matches Some(Err(_)))
    }

    /// Why the applier refused, or nothing.
    pub open spec fn reason(self) -> Seq<char> {
        match self.applied {
            Some(Err(reason)) => reason,
            _ => Seq::empty(),
        }
    }

    /// The acknowledgement says what became of the config, at the instant `now`.
    pub open spec fn acked_by(self, m: AgentMessage, now: UtcTime) -> bool {
        &&& m.kind matches Some(AgentKind::ConfigAck(ack))
        &&& ack.config_hash@ == self.hash
        &&& ack.applied_at == Some(whole_timestamp(now))
        &&& ack.applied_state@ == if self.active() {
            "active"@
        } else {
            "error"@
        }
        &&& ack.error@ == self.reason()
    }
}

/// The text of what an applier said.
pub open spec fn answer_view(answer: Result<(), String>) -> Result<(), Seq<char>> {
    match answer {
        Ok(()) => Ok(()),
        Err(reason) => Err(reason@),
    }
}

/// A pushed config on its way through the agent.
pub struct ConfigPush<B> {
    hash: String,
    bundle: Option<B>,
    wired: bool,
    saved: bool,
    applied: Option<Result<(), String>>,
}

impl<B> View for ConfigPush<B> {
    type V = PushView<B>;

    closed spec fn view(&self) -> PushView<B> {
        PushView {
            hash: self.hash@,
            bundle: self.bundle,
            wired: self.wired,
            saved: self.saved,
            applied: match self.applied {
                Some(answer) => Some(answer_view(answer)),
                None => None,
            },
        }
    }
}

/// What to publish once a pushed config is done with.
pub struct PushOutcome {
    /// The hash of the config now in effect, if it is a new one.
    pub applied_hash: Option<String>,
    /// The event for the host.
    pub event: AgentEvent,
    /// The acknowledgement for the Control Plane.
    pub ack: AgentMessage,
}

impl<B> ConfigPush<B> {
    /// A config that has just arrived.
    pub fn begin(update: ConfigUpdate<B>, wired: bool) -> (r: ConfigPush<B>)
        ensures
            r@ == PushView::begun(update, wired),
    {
        ConfigPush {
            hash: update.config_hash,
            bundle: update.bundle,
            wired,
            saved: false,
            applied: None,
        }
    }

    /// The hash that the config came with.
    pub fn hash(&self) -> (r: &str)
        ensures
            r@ == self@.hash,
    {
        self.hash.as_str()
    }

    /// The bundle, if the config came with one.
    pub fn bundle(&self) -> (r: Option<&B>)
        ensures
            match r {
                Some(b) => self@.bundle == Some(*b),
                None => self@.bundle is None,
            },
    {
        match &self.bundle {
            Some(b) => Some(b),
            None => None,
        }
    }

    /// The next thing to do.
    pub fn step(&self) -> (r: PushStep)
        ensures
            r == self@.step(),
    {
        if self.bundle.is_some() && !self.saved {
            PushStep::Save
        } else if self.bundle.is_some() && self.wired && self.applied.is_none() {
            PushStep::Apply
        } else {
            PushStep::Finish
        }
    }

    /// Saving was tried. A failure to save does not stop the config.
    pub fn saved(&mut self)
        ensures
            final(self)@ == old(self)@.after_save(),
    {
        if self.bundle.is_some() && !self.saved {
            self.saved = true;
        }
    }

    /// The applier has answered. An answer that was not asked for is ignored.
    pub fn applied(&mut self, answer: Result<(), String>)
        ensures
            final(self)@ == old(self)@.after_apply(answer_view(answer)),
    {
        match self.step() {
            PushStep::Apply => {
                self.applied = Some(answer);
            },
            _ => {},
        }
    }

    /// What to publish at the instant `now`.
    pub fn finish(self, now: UtcTime) -> (r: PushOutcome)
        requires
            self@.step() is Finish,
        ensures
            match r.applied_hash {
                Some(hash) => self@.active() && self@.hash.len() > 0 && hash@ == self@.hash,
                None => !(self@.active() && self@.hash.len() > 0),
            },
            r.event matches AgentEvent::ConfigReceived { hash } && hash@ == self@.hash,
            self@.acked_by(r.ack, now),
    {
        let (active, error): (bool, String) = match self.applied {
            Some(Err(reason)) => (false, reason),
            _ => (true, String::new()),
        };
        let applied_hash: Option<String> = if active && !self.hash.as_str().is_empty() {
            Some(self.hash.clone())
        } else {
            None
        };
        let applied_state: String = if active {
            "active".to_owned()
        } else {
            "error".to_owned()
        };
        PushOutcome {
            applied_hash,
            event: AgentEvent::ConfigReceived { hash: self.hash.clone() },
            ack: AgentMessage {
                kind: Some(
                    AgentKind::ConfigAck(
                        ConfigAck {
                            config_hash: self.hash,
                            applied_at: Some(Timestamp::whole(now)),
                            applied_state,
                            error,
                        },
                    ),
                ),
            },
        }
    }
}

/// A bundle is saved before it is applied, it is applied only where an applier
/// is wired, and after that only the acknowledgement is left.
pub proof fn law_config_is_saved_then_applied<B>(
    update: ConfigUpdate<B>,
    wired: bool,
    answer: Result<(), Seq<char>>,
)
    ensures
        ({
            let begun = PushView::begun(update, wired);
            let saved = begun.after_save();
            let applied = saved.after_apply(answer);
            &&& begun.step() is Save <==> update.bundle is Some
            &&& begun.step() is Finish <==> update.bundle is None
            &&& saved.step() is Apply <==> update.bundle is Some && wired
            &&& saved.step() !is Save
            &&& applied.step() is Finish
        }),
{
}

/// Whatever is reported in whatever order, a bundle is due to be applied only
/// once saving it was tried.
pub proof fn law_nothing_is_applied_unsaved<B>(push: PushView<B>)
    ensures
        push.step() is Apply ==> push.saved,
        push.bundle is Some && !push.saved ==> push.after_apply(Ok(())) == push,
{
}

/// The acknowledgement is truthful: it says that the config is active exactly
/// if nothing was to be applied or the applier took it, and otherwise it gives
/// the applier's reason.
pub proof fn law_ack_is_truthful<B>(push: PushView<B>, m: AgentMessage, now: UtcTime)
    requires
        push.acked_by(m, now),
    ensures
        m.kind matches Some(AgentKind::ConfigAck(ack)) && {
            &&& ack.applied_state@ == "active"@ <==> !(push.applied matches Some(Err(_)))
            &&& push.applied matches Some(Err(reason)) ==> ack.applied_state@ == "error"@
                && ack.error@ == reason
            &&& ack.applied_state@ == "active"@ ==> ack.error@.len() == 0
        },
{
    reveal_strlit("active");
    reveal_strlit("error");
    assert("active"@.len() != "error"@.len());
}

/// Counts heartbeats.
pub struct HeartbeatTicker {
    seq: u64,
}

impl HeartbeatTicker {
    /// The number of the last heartbeat; zero before the first.
    pub closed spec fn seq(self) -> u64 {
        self.seq
    }

    /// No heartbeat yet.
    pub fn new() -> (r: HeartbeatTicker)
        ensures
            r.seq() == 0,
    {
        HeartbeatTicker { seq: 0 }
    }

    /// The next heartbeat, at the instant `now`. Their numbers rise by one, up
    /// to the largest. Load figures are not measured and stay zero.
    pub fn beat(&mut self, now: UtcTime) -> (r: AgentMessage)
        ensures
            final(self).seq() == if old(self).seq() < u64::MAX {
                (old(self).seq() + 1) as u64
            } else {
                u64::MAX
            },
            r.kind matches Some(AgentKind::Heartbeat(beat)) && {
                &&& beat.at == Some(whole_timestamp(now))
                &&& beat.seq == final(self).seq()
                &&& beat.health@ == "ok"@
                &&& beat.active_connections == 0
                &&& beat.memory_rss_bytes == 0
            },
    {
        self.seq = self.seq.saturating_add(1);
        AgentMessage {
            kind: Some(
                AgentKind::Heartbeat(
                    Heartbeat {
                        at: Some(Timestamp::whole(now)),
                        seq: self.seq,
                        health: "ok".to_owned(),
                        active_connections: 0,
                        memory_rss_bytes: 0,
                    },
                ),
            ),
        }
    }

    /// The event for a heartbeat that was sent.
    pub fn sent(&self) -> (r: AgentEvent)
        ensures
            r matches AgentEvent::HeartbeatSent { seq } && seq == self.seq(),
    {
        AgentEvent::HeartbeatSent { seq: self.seq }
    }
}

/// The hash in effect and the event for the host, where a config of an earlier
/// run was loaded at the start.
pub fn preload(hash: String) -> (r: (String, AgentEvent))
    ensures
        r.0@ == hash@,
        r.1 matches AgentEvent::ConfigReceived { hash: told } && told@ == hash@,
{
    let event: AgentEvent = AgentEvent::ConfigReceived { hash: hash.clone() };
    (hash, event)
}

/// Every acknowledgement names the config that it is about: the hash that the
/// update came with, whether the config is active or was refused, and the second
/// at which it was done with.
pub proof fn law_ack_names_its_config<B>(
    update: ConfigUpdate<B>,
    wired: bool,
    answer: Result<(), Seq<char>>,
    m: AgentMessage,
    now: UtcTime,
)
    requires
        PushView::begun(update, wired).after_save().after_apply(answer).acked_by(m, now),
    ensures
        m.kind matches Some(AgentKind::ConfigAck(ack)) && {
            &&& ack.config_hash@ == update.config_hash@
            &&& ack.applied_at matches Some(at) && at.seconds == now.seconds() && at.nanos == 0
        },
{
}

/// The acknowledgement of a config tells the applier's answer where there was
/// one to ask, and success where there was not.
pub proof fn law_ack_tells_the_answer<B>(
    update: ConfigUpdate<B>,
    wired: bool,
    answer: Result<(), Seq<char>>,
    m: AgentMessage,
    now: UtcTime,
)
    requires
        PushView::begun(update, wired).after_save().after_apply(answer).acked_by(m, now),
    ensures
        m.kind matches Some(AgentKind::ConfigAck(ack)) && {
            let refused = update.bundle is Some && wired && answer is Err;
            &&& refused ==> ack.applied_state@ == "error"@ && ack.error@ == answer->Err_0
            &&& !refused ==> ack.applied_state@ == "active"@ && ack.error@.len() == 0
        },
{
}

/// A config is in effect unless the applier refused it; and where it was refused,
/// the reason is kept whole.
pub proof fn law_refusal_alone_keeps_a_config_out<B>(push: PushView<B>, reason: Seq<char>)
    ensures
        push.active() <==> (push.applied is None || push.applied->0 is Ok),
        push.applied == Some(Err::<(), Seq<char>>(reason)) ==> push.reason() == reason,
        push.active() ==> push.reason().len() == 0,
{
}

/// No step of a push changes what was pushed: hash, bundle and wiring stay.
pub proof fn law_push_keeps_its_config<B>(
    update: ConfigUpdate<B>,
    wired: bool,
    push: PushView<B>,
    answer: Result<(), Seq<char>>,
)
    ensures
        PushView::begun(update, wired).hash == update.config_hash@,
        PushView::begun(update, wired).bundle == update.bundle,
        PushView::begun(update, wired).wired == wired,
        !PushView::begun(update, wired).saved,
        PushView::begun(update, wired).applied is None,
        push.after_save().hash == push.hash,
        push.after_save().bundle == push.bundle,
        push.after_save().wired == push.wired,
        push.after_save().applied == push.applied,
        push.after_apply(answer).hash == push.hash,
        push.after_apply(answer).bundle == push.bundle,
        push.after_apply(answer).wired == push.wired,
        push.after_apply(answer).saved == push.saved,
{
}

/// A push waits for the applier's answer exactly where it has a saved bundle and
/// an applier; it hears the first answer, keeps it as it is, and is then done.
pub proof fn law_first_answer_counts<B>(
    push: PushView<B>,
    answer: Result<(), Seq<char>>,
    second: Result<(), Seq<char>>,
)
    requires
        push.bundle is Some,
        push.wired,
        push.saved,
        push.applied is None,
    ensures
        push.step() is Apply,
        push.after_apply(answer).applied == Some(answer),
        push.after_apply(answer).step() is Finish,
        push.after_apply(answer).after_apply(second) == push.after_apply(answer),
{
}

/// What an applier says is heard as it is.
pub proof fn law_answer_is_heard(reason: String)
    ensures
        answer_view(Ok(())) is Ok,
        answer_view(Err(reason)) == Err::<(), Seq<char>>(reason@),
{
}

/// Every pushed config is taken up, with its hash and its bundle.
pub proof fn law_every_config_is_taken_up<B, Q>(
    r: Inbound<B, Q>,
    update: ConfigUpdate<B>,
    wired: bool,
)
    requires
        answers(r, ServerMessage { kind: Some(ServerKind::ConfigUpdate(update)) }, wired),
    ensures
        r matches Inbound::Config(push) && {
            &&& push@.hash == update.config_hash@
            &&& push@.bundle == update.bundle
            &&& push@.wired == wired
            &&& push@.step() is Save <==> update.bundle is Some
        },
{
}

/// Every rotation that brings a token is put to use as it came, and none that
/// brings no token is.
pub proof fn law_rotation_with_a_token_is_used<B, Q>(
    r: Inbound<B, Q>,
    rotation: CredentialRotation,
    wired: bool,
)
    requires
        answers(r, ServerMessage { kind: Some(ServerKind::CredentialRotation(rotation)) }, wired),
    ensures
        rotation.instance_jwt@.len() > 0 ==> (r matches Inbound::Rotate(used) && used == rotation),
        rotation.instance_jwt@.len() == 0 ==> r is Ignore,
{
}

/// Every quarantine ends the session, with its reason in the error, and leaves
/// the credentials alone.
pub proof fn law_quarantine_ends_the_session<B, Q>(r: Inbound<B, Q>, reason: String, wired: bool)
    requires
        answers(r, ServerMessage { kind: Some(ServerKind::Quarantine { reason }) }, wired),
    ensures
        r matches Inbound::Quarantined(e) && e.text@ == "quarantined: "@ + reason@
            && !e.is_rejection(),
{
}

/// Every quota status is handed on as it came.
pub proof fn law_quota_is_handed_on<B, Q>(r: Inbound<B, Q>, quota: Q, wired: bool)
    requires
        answers(r, ServerMessage { kind: Some(ServerKind::QuotaStatus(quota)) }, wired),
    ensures
        r matches Inbound::Quota(told) && told == quota,
{
}

/// Nothing but a quarantine ends a session, nothing but a config is
/// acknowledged, and what is neither config, rotation, quarantine nor quota asks
/// for nothing.
pub proof fn law_other_messages_ask_for_nothing<B, Q>(
    r: Inbound<B, Q>,
    msg: ServerMessage<B, Q>,
    wired: bool,
)
    requires
        answers(r, msg, wired),
    ensures
        r is Quarantined ==> msg.kind is Some && msg.kind->0 is Quarantine,
        r is Config ==> msg.kind is Some && msg.kind->0 is ConfigUpdate,
        msg.kind is None ==> r is Ignore,
        msg.kind matches Some(k) ==> (k is Command || k is DiagnosticRequest || k is LogRequest)
            ==> r is Ignore,
{
}

} // verus!
