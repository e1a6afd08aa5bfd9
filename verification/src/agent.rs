//! The lifecycle of an agent: enroll, connect, reconnect. Everything here
//! decides; the host performs what was decided and reports back.

use vstd::prelude::*;
use vstd::string::StringExecFns;

use crate::backoff::{lesser, Backoff};
use crate::client::ClientTlsMaterial;
use crate::creds::{issued_dek, StoredCreds};
use crate::externals::{fresh_uuid, is_uuid_v7};
use crate::proto::{HostInfo, RegisterRequest, RegisterResponse};
use crate::rejection::{is_credential_rejection, SessionError};
use crate::text::text_or_empty;
use crate::time::{Duration, UtcTime, NANOS_PER_SEC};
use crate::token::{
    expires_within, expiring, extract_token, has_token, jwt_exp, jwt_exp_of,
    law_enrollment_url_carries_its_token, refresh_window_nanos,
    token_of, token_refresh_window, whole_seconds, EnrollError,
};

verus! {

broadcast use vstd::string::group_string_axioms;

/// The version that the agent announces by default.
pub const CLIENT_VERSION: &'static str = "0.1.0";

/// How an agent is set up.
#[derive(Clone, Debug)]
pub struct AgentRunnerConfig {
    pub cp_endpoint: String,
    pub enrollment_url: String,
    pub instance_uid: String,
    pub version: String,
    /// Where credentials and caches are kept.
    pub state_dir: String,
    pub heartbeat_interval: Duration,
    pub backoff_initial: Duration,
    pub backoff_max: Duration,
    /// The CA to trust on the very first connect, before the Control Plane has
    /// issued one.
    pub bootstrap_ca_pem: Option<String>,
}

impl AgentRunnerConfig {
    /// The default setup, except for what depends on the instance.
    pub open spec fn is_default_for(self, uuid: Seq<char>) -> bool {
        &&& self.cp_endpoint@ == "http://127.0.0.1:7844"@
        &&& self.enrollment_url@.len() == 0
        &&& self.instance_uid@ == "mcpg-"@ + uuid
        &&& self.version@ == CLIENT_VERSION@
        &&& self.state_dir@ == "./agent-state"@
        &&& self.heartbeat_interval.nanos() == 30 * NANOS_PER_SEC
        &&& self.backoff_initial.nanos() == 1 * NANOS_PER_SEC
        &&& self.backoff_max.nanos() == 60 * NANOS_PER_SEC
        &&& self.bootstrap_ca_pem is None
    }

    /// The default setup of the instance with the given identifier.
    pub fn default_for(uuid: &str) -> (r: AgentRunnerConfig)
        ensures
            r.is_default_for(uuid@),
    {
        let prefix: String = "mcpg-".to_owned();
        AgentRunnerConfig {
            cp_endpoint: "http://127.0.0.1:7844".to_owned(),
            enrollment_url: String::new(),
            instance_uid: prefix.concat(uuid),
            version: CLIENT_VERSION.to_owned(),
            state_dir: "./agent-state".to_owned(),
            heartbeat_interval: Duration::from_secs(30),
            backoff_initial: Duration::from_secs(1),
            backoff_max: Duration::from_secs(60),
            bootstrap_ca_pem: None,
        }
    }

    /// The backoff that the setup asks for.
    pub fn backoff(&self) -> (r: Backoff)
        ensures
            r.initial() == self.backoff_initial,
            r.max() == self.backoff_max,
            r.jitter(),
            r.attempt() == 0,
    {
        Backoff::new(self.backoff_initial, self.backoff_max, true)
    }

    /// The certificates for the very first connect, if a CA is given for it.
    pub fn bootstrap_tls(&self) -> (r: Option<ClientTlsMaterial>)
        ensures
            r is Some <==> self.bootstrap_ca_pem is Some,
            r matches Some(m) ==> {
                &&& m.ca_pem@ == self.bootstrap_ca_pem->0@
                &&& m.client_cert_pem@.len() == 0
                &&& m.client_key_pem@.len() == 0
                &&& m.server_name is None
            },
    {
        match &self.bootstrap_ca_pem {
            Some(ca) => Some(
                ClientTlsMaterial {
                    ca_pem: ca.clone(),
                    client_cert_pem: String::new(),
                    client_key_pem: String::new(),
                    server_name: None,
                },
            ),
            None => None,
        }
    }
}

impl Default for AgentRunnerConfig {
    fn default() -> (r: AgentRunnerConfig)
        ensures
            exists|uuid: Seq<char>| is_uuid_v7(uuid) && #[trigger] r.is_default_for(uuid),
    {
        let uuid: String = fresh_uuid();
        Self::default_for(uuid.as_str())
    }
}

/// What an agent tells its host.
#[derive(Clone, Debug)]
pub enum AgentEvent {
    Registered { instance_id: String },
    ChannelConnected,
    ChannelDisconnected { reason: String },
    HeartbeatSent { seq: u64 },
    ConfigReceived { hash: String },
    Error(String),
}

/// How an agent starts.
pub enum FirstStep {
    /// With the credentials of an earlier run.
    Resume(StoredCreds),
    /// With a registration.
    Register,
}

/// How to start, given the credentials on disk where they can be read. Their
/// token is checked before every connect, not here.
pub fn first_step(cached: Option<StoredCreds>) -> (r: FirstStep)
    ensures
        match r {
            FirstStep::Resume(creds) => cached == Some(creds),
            FirstStep::Register => cached is None,
        },
{
    match cached {
        Some(creds) => FirstStep::Resume(creds),
        None => FirstStep::Register,
    }
}

/// The name of the machine: what the one variable says, or else the other.
pub fn hostname(host_var: Option<String>, computer_var: Option<String>) -> (r: Option<String>)
    ensures
        r == if host_var is Some {
            host_var
        } else {
            computer_var
        },
{
    match host_var {
        Some(name) => Some(name),
        None => computer_var,
    }
}

/// What a registration says of the machine. A name that is not known is left
/// empty, and so is the kernel version.
pub fn host_info(os: &str, arch: &str, name: Option<String>) -> (r: HostInfo)
    ensures
        r.os@ == os@,
        r.arch@ == arch@,
        r.hostname@ == text_or_empty(name),
        r.kernel_version@.len() == 0,
{
    HostInfo {
        os: os.to_owned(),
        arch: arch.to_owned(),
        hostname: match name {
            Some(name) => name,
            None => String::new(),
        },
        kernel_version: String::new(),
    }
}

/// `req` enrolls the configured instance with the token of its enrollment URL.
pub open spec fn enrolls(req: RegisterRequest, cfg: AgentRunnerConfig, host: HostInfo) -> bool {
    &&& token_of(cfg.enrollment_url@) == Ok::<Seq<char>, EnrollError>(req.bootstrap_token@)
    &&& req.instance_uid@ == cfg.instance_uid@
    &&& req.version@ == cfg.version@
    &&& req.labels@.len() == 0
    &&& req.capabilities@.len() == 1
    &&& req.capabilities@[0]@ == "control_plane_client"@
    &&& req.addressable_endpoints@.len() == 0
    &&& req.host == Some(host)
}

/// The request to be enrolled, or the reason why there is no token for one.
pub fn register_request(cfg: &AgentRunnerConfig, host: HostInfo) -> (r: Result<
    RegisterRequest,
    EnrollError,
>)
    ensures
        match r {
            Ok(req) => enrolls(req, *cfg, host),
            Err(e) => token_of(cfg.enrollment_url@) == Err::<Seq<char>, EnrollError>(e),
        },
{
    match extract_token(cfg.enrollment_url.as_str()) {
        Ok(token) => {
            let mut capabilities: Vec<String> = Vec::new();
            capabilities.push("control_plane_client".to_owned());
            Ok(
                RegisterRequest {
                    bootstrap_token: token,
                    instance_uid: cfg.instance_uid.clone(),
                    version: cfg.version.clone(),
                    labels: Vec::new(),
                    capabilities,
                    addressable_endpoints: Vec::new(),
                    host: Some(host),
                },
            )
        },
        Err(e) => Err(e),
    }
}

/// What a registration brings, at the instant `now`: the event for the host, and
/// the credentials to store and install.
pub fn registered(resp: RegisterResponse, now: UtcTime) -> (r: (AgentEvent, StoredCreds))
    ensures
        r.0 matches AgentEvent::Registered { instance_id } && instance_id@ == resp.instance_id@,
        r.1.issued_by(resp, now),
        r.1.stored_dek() == issued_dek(resp.payload_dek@, resp.payload_dek_version),
{
    let event: AgentEvent = AgentEvent::Registered { instance_id: resp.instance_id.clone() };
    (event, StoredCreds::from_response(resp, now))
}

/// What to do after an attempt that is repeated until it succeeds.
pub enum RetryStep<T> {
    Done(T),
    Wait(Duration),
}

/// Judges one attempt: a success ends the retries, and after a failure comes
/// the next delay. There is no last attempt.
pub fn retry_step<T, E>(backoff: &mut Backoff, result: Result<T, E>) -> (r: RetryStep<T>)
    requires
        result is Err ==> old(backoff).can_spread(),
    ensures
        final(backoff).same_settings(*old(backoff)),
        match r {
            RetryStep::Done(v) => {
                &&& result matches Ok(w)
                &&& v == w
                &&& final(backoff).attempt() == old(backoff).attempt()
            },
            RetryStep::Wait(delay) => {
                &&& result is Err
                &&& old(backoff).may_delay(delay)
                &&& final(backoff).attempt() == lesser(old(backoff).attempt() + 1, u32::MAX as nat)
            },
        },
{
    match result {
        Ok(v) => RetryStep::Done(v),
        Err(_) => RetryStep::Wait(backoff.next_delay()),
    }
}

/// What to do before the next connect.
#[derive(Clone, Copy, Debug, PartialEq, Eq, Structural)]
pub enum ConnectStep {
    /// Stop: a shutdown was asked for.
    Stop,
    /// Register for a new token, then connect with it.
    ReenrollAndConnect,
    /// Connect with the token at hand.
    Connect,
}

/// What to do after a session has ended.
#[derive(Clone, Debug)]
pub enum SessionStep {
    /// Go on at once: the session ended cleanly.
    Again,
    /// Give the connection up, wait, and go on with the same credentials.
    Retry { event: AgentEvent, delay: Duration },
    /// The credentials were refused and nothing can replace them: give the
    /// connection up, wait, and go on with them all the same.
    RetryRefused { event: AgentEvent, delay: Duration },
    /// The credentials were refused: give the connection up, throw them away,
    /// wait, register for new ones, and go on.
    Reenroll { event: AgentEvent, delay: Duration },
}

/// The decisions of the loop that keeps an agent connected.
pub struct RunLoop {
    backoff: Backoff,
    refresh_window: Duration,
    enrollment_url: String,
}

/// The event says that the channel was lost, and why.
pub open spec fn tells_loss(event: AgentEvent, err: SessionError) -> bool {
    event matches AgentEvent::ChannelDisconnected { reason } && reason@ == err.text@
}

/// The expiry of the token at hand, if there is a token and it can be read.
pub open spec fn expiry_at_hand(jwt: Option<Seq<char>>) -> Option<i64> {
    match jwt {
        Some(jwt) => jwt_exp_of(jwt),
        None => None,
    }
}

/// The step before a connect. A token that is due to expire, or that cannot be
/// read, is replaced first, where there is an enrollment token to do so.
pub open spec fn step_before_connect(
    stopping: bool,
    exp: Option<i64>,
    now: i64,
    window: Duration,
    enrollment_url: Seq<char>,
) -> ConnectStep {
    if stopping {
        ConnectStep::Stop
    } else if expiring(exp, now, window) && has_token(enrollment_url) {
        ConnectStep::ReenrollAndConnect
    } else {
        ConnectStep::Connect
    }
}

impl RunLoop {
    /// The backoff between sessions.
    pub closed spec fn backoff(self) -> Backoff {
        self.backoff
    }

    /// How long a token must last to be presented.
    pub closed spec fn refresh_window(self) -> Duration {
        self.refresh_window
    }

    /// What a new registration would be made with.
    pub closed spec fn enrollment_url(self) -> Seq<char> {
        self.enrollment_url@
    }

    /// The loop for a setup.
    pub fn new(cfg: &AgentRunnerConfig) -> (r: RunLoop)
        ensures
            r.backoff().initial() == cfg.backoff_initial,
            r.backoff().max() == cfg.backoff_max,
            r.backoff().jitter(),
            r.backoff().attempt() == 0,
            r.enrollment_url() == cfg.enrollment_url@,
            r.refresh_window().nanos() == refresh_window_nanos(cfg.heartbeat_interval),
    {
        RunLoop {
            backoff: cfg.backoff(),
            refresh_window: token_refresh_window(cfg.heartbeat_interval),
            enrollment_url: cfg.enrollment_url.clone(),
        }
    }

    /// Whether a delay can be had after a failed session.
    pub fn can_delay(&self) -> (r: bool)
        ensures
            r == self.backoff().can_spread(),
    {
        self.backoff.can_delay()
    }

    /// The step before a connect at the second `now`, with a token of expiry `exp`.
    pub fn before_connect_with(&self, stopping: bool, exp: Option<i64>, now: i64) -> (r: ConnectStep)
        ensures
            r == step_before_connect(
                stopping,
                exp,
                now,
                self.refresh_window(),
                self.enrollment_url(),
            ),
    {
        if stopping {
            return ConnectStep::Stop;
        }
        if expires_within(exp, now, self.refresh_window) {
            match extract_token(self.enrollment_url.as_str()) {
                Ok(_) => ConnectStep::ReenrollAndConnect,
                Err(_) => ConnectStep::Connect,
            }
        } else {
            ConnectStep::Connect
        }
    }

    /// The step before a connect at the second `now`, with the token at hand.
    pub fn before_connect(&self, stopping: bool, jwt: Option<&str>, now: i64) -> (r: ConnectStep)
        ensures
            r == step_before_connect(
                stopping,
                expiry_at_hand(
                    match jwt {
                        Some(jwt) => Some(jwt@),
                        None => None,
                    },
                ),
                now,
                self.refresh_window(),
                self.enrollment_url(),
            ),
    {
        let exp: Option<i64> = match jwt {
            Some(jwt) => jwt_exp(jwt),
            None => None,
        };
        self.before_connect_with(stopping, exp, now)
    }

    /// The step after a session.
    pub fn after_session(&mut self, outcome: Result<(), SessionError>) -> (r: SessionStep)
        requires
            outcome is Err ==> old(self).backoff().can_spread(),
        ensures
            final(self).refresh_window() == old(self).refresh_window(),
            final(self).enrollment_url() == old(self).enrollment_url(),
            final(self).backoff().same_settings(old(self).backoff()),
            final(self).backoff().attempt() == if outcome is Ok {
                0
            } else {
                lesser(old(self).backoff().attempt() + 1, u32::MAX as nat)
            },
            match r {
                SessionStep::Again => outcome is Ok,
                SessionStep::Retry { event, delay } => outcome matches Err(e) && !e.is_rejection()
                    && tells_loss(event, e) && old(self).backoff().may_delay(delay),
                SessionStep::RetryRefused { event, delay } => outcome matches Err(e)
                    && e.is_rejection() && !has_token(old(self).enrollment_url()) && tells_loss(
                    event,
                    e,
                ) && old(self).backoff().may_delay(delay),
                SessionStep::Reenroll { event, delay } => outcome matches Err(e)
                    && e.is_rejection() && has_token(old(self).enrollment_url()) && tells_loss(
                    event,
                    e,
                ) && old(self).backoff().may_delay(delay),
            },
    {
        match outcome {
            Ok(()) => {
                self.backoff.reset();
                SessionStep::Again
            },
            Err(e) => {
                let rejected: bool = is_credential_rejection(&e);
                let delay: Duration = self.backoff.next_delay();
                let event: AgentEvent = AgentEvent::ChannelDisconnected { reason: e.text };
                if rejected {
                    match extract_token(self.enrollment_url.as_str()) {
                        Ok(_) => SessionStep::Reenroll { event, delay },
                        Err(_) => SessionStep::RetryRefused { event, delay },
                    }
                } else {
                    SessionStep::Retry { event, delay }
                }
            },
        }
    }
}

/// Where a new token can be had, none is presented that cannot be read or that
/// expires within the window.
pub proof fn law_stale_token_is_never_presented(
    exp: Option<i64>,
    now: i64,
    window: Duration,
    enrollment_url: Seq<char>,
)
    requires
        has_token(enrollment_url),
        step_before_connect(false, exp, now, window, enrollment_url) is Connect,
    ensures
        exp is Some,
        exp->0 > now + whole_seconds(window),
{
}

/// Once a shutdown is asked for, no connect follows.
pub proof fn law_shutdown_stops_the_loop(
    exp: Option<i64>,
    now: i64,
    window: Duration,
    enrollment_url: Seq<char>,
)
    ensures
        step_before_connect(true, exp, now, window, enrollment_url) is Stop,
{
}

/// A token that lasts longer than the window is presented as it is, even where
/// a new one could be had.
pub proof fn law_lasting_token_is_presented(
    exp: i64,
    now: i64,
    window: Duration,
    enrollment_url: Seq<char>,
)
    requires
        (exp - now) * 1_000_000_000 > window.nanos(),
    ensures
        step_before_connect(false, Some(exp), now, window, enrollment_url) is Connect,
{
}

/// A token that lasts no longer than the window, or whose expiry cannot be read,
/// is replaced before the connect, wherever the enrollment URL has a token; and
/// nowhere else is there a registration before a connect.
pub proof fn law_reenrollment_takes_a_due_token_and_a_way(
    exp: Option<i64>,
    now: i64,
    window: Duration,
    enrollment_url: Seq<char>,
)
    ensures
        step_before_connect(false, exp, now, window, enrollment_url) is ReenrollAndConnect <==> (exp
            is None || (exp->0 - now) * 1_000_000_000 <= window.nanos()) && token_of(
            enrollment_url,
        ) is Ok,
        token_of(enrollment_url) is Err ==> step_before_connect(
            false,
            exp,
            now,
            window,
            enrollment_url,
        ) is Connect,
{
}

/// The loop stops exactly if a stop was asked for.
pub proof fn law_only_a_shutdown_stops_the_loop(
    stopping: bool,
    exp: Option<i64>,
    now: i64,
    window: Duration,
    enrollment_url: Seq<char>,
)
    ensures
        step_before_connect(stopping, exp, now, window, enrollment_url) is Stop <==> stopping,
{
}

/// As time goes by, a token that was replaced would be replaced later too: once
/// due it stays due, and a wider window makes it due no later.
pub proof fn law_due_token_stays_due(
    exp: Option<i64>,
    now: i64,
    later: i64,
    window: Duration,
    wider: Duration,
    enrollment_url: Seq<char>,
)
    requires
        now <= later,
        window.nanos() <= wider.nanos(),
        step_before_connect(false, exp, now, window, enrollment_url) is ReenrollAndConnect,
    ensures
        step_before_connect(false, exp, later, wider, enrollment_url) is ReenrollAndConnect,
{
}

/// Without a token at hand there is no expiry, and with one it is that of the
/// token.
pub proof fn law_expiry_at_hand_is_that_of_the_token(jwt: Seq<char>)
    ensures
        expiry_at_hand(None) is None,
        expiry_at_hand(Some(jwt)) == jwt_exp_of(jwt),
{
}

/// A registration presents the very token that the enrollment URL was made with,
/// under the identity and version of the setup, and tells of the host as given.
pub proof fn law_registration_presents_the_token(
    req: RegisterRequest,
    cfg: AgentRunnerConfig,
    host: HostInfo,
    base: Seq<char>,
    token: Seq<char>,
)
    requires
        enrolls(req, cfg, host),
        cfg.enrollment_url@ == base + "#token="@ + token,
        forall|i: int| 0 <= i < base.len() ==> base[i] != '#',
        forall|i: int| 0 <= i < token.len() ==> token[i] != '&',
    ensures
        req.bootstrap_token@ == token,
        req.instance_uid@ == cfg.instance_uid@,
        req.version@ == cfg.version@,
        req.host == Some(host),
        req.labels@.len() == 0,
        req.addressable_endpoints@.len() == 0,
        req.capabilities@.len() == 1 && req.capabilities@[0]@ == "control_plane_client"@,
{
    law_enrollment_url_carries_its_token(base, token);
}

/// There is no registration without a token in the enrollment URL, and it
/// presents the token that is there, whatever else the URL holds.
pub proof fn law_registration_takes_a_token(
    req: RegisterRequest,
    cfg: AgentRunnerConfig,
    host: HostInfo,
)
    requires
        enrolls(req, cfg, host),
    ensures
        token_of(cfg.enrollment_url@) is Ok,
        req.bootstrap_token@ == token_of(cfg.enrollment_url@)->Ok_0,
        req.instance_uid@ == cfg.instance_uid@,
        req.version@ == cfg.version@,
        req.host == Some(host),
{
}

/// The loss of a channel is told with the whole text of the error, and no other
/// event tells it.
pub proof fn law_loss_is_told_in_full(event: AgentEvent, reason: String, err: SessionError)
    ensures
        tells_loss(AgentEvent::ChannelDisconnected { reason }, err) <==> reason@ == err.text@,
        tells_loss(event, err) ==> event is ChannelDisconnected,
{
}

/// Two instances with the default setup differ in their identifiers alone, and
/// those differ where the identifiers they were made with do.
pub proof fn law_default_setups_differ_in_identity(
    a: AgentRunnerConfig,
    b: AgentRunnerConfig,
    x: Seq<char>,
    y: Seq<char>,
)
    requires
        a.is_default_for(x),
        b.is_default_for(y),
    ensures
        a.instance_uid@ == b.instance_uid@ <==> x == y,
        a.instance_uid@ == "mcpg-"@ + x,
        a.cp_endpoint@ == b.cp_endpoint@,
        a.version@ == b.version@,
        a.state_dir@ == b.state_dir@,
        a.enrollment_url@.len() == 0,
        a.bootstrap_ca_pem is None,
        a.heartbeat_interval.nanos() == 30_000_000_000,
        a.backoff_initial.nanos() == 1_000_000_000,
        a.backoff_max.nanos() == 60_000_000_000,
{
    let p = "mcpg-"@;
    assert(x =~= (p + x).skip(p.len() as int));
    assert(y =~= (p + y).skip(p.len() as int));
}

} // verus!
