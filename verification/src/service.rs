//! Service orchestrator: owns the configured channel set, gates the
//! start on a pre-flight port check, resolves channels, aggregates
//! the global state machine and answers status queries. The network
//! probes and the channel runners live outside; their outcomes come
//! in as plain values.

use vstd::prelude::*;
use vstd::string::*;
use crate::config::{AppConfig, AppConfigView, ChannelConfig, ConnectionView, resolvable, resolution};
use crate::error::AppError;
use crate::text::{dec_string_u64, str_eq};

verus! {

/// The global service state. `Error` carries the reason.
#[derive(Debug)]
pub enum ServiceState {
    Stopped,
    Starting,
    Running,
    Stopping,
    Error(String),
}

impl Clone for ServiceState {
    fn clone(&self) -> (r: Self)
        ensures
            r == *self,
    {
        match self {
            ServiceState::Stopped => ServiceState::Stopped,
            ServiceState::Starting => ServiceState::Starting,
            ServiceState::Running => ServiceState::Running,
            ServiceState::Stopping => ServiceState::Stopping,
            ServiceState::Error(m) => ServiceState::Error(m.clone()),
        }
    }
}

impl PartialEq for ServiceState {
    fn eq(&self, other: &Self) -> (r: bool) {
        match (self, other) {
            (ServiceState::Stopped, ServiceState::Stopped) => true,
            (ServiceState::Starting, ServiceState::Starting) => true,
            (ServiceState::Running, ServiceState::Running) => true,
            (ServiceState::Stopping, ServiceState::Stopping) => true,
            (ServiceState::Error(a), ServiceState::Error(b)) => str_eq(a.as_str(), b.as_str()),
            _ => false,
        }
    }
}

impl vstd::std_specs::cmp::PartialEqSpecImpl for ServiceState {
    open spec fn obeys_eq_spec() -> bool {
        true
    }

    open spec fn eq_spec(&self, other: &Self) -> bool {
        match (self, other) {
            (ServiceState::Stopped, ServiceState::Stopped) => true,
            (ServiceState::Starting, ServiceState::Starting) => true,
            (ServiceState::Running, ServiceState::Running) => true,
            (ServiceState::Stopping, ServiceState::Stopping) => true,
            (ServiceState::Error(a), ServiceState::Error(b)) => a@ == b@,
            _ => false,
        }
    }
}

/// A point-in-time, read-only copy of the service's state and
/// channel counts.
#[derive(Debug)]
pub struct ServiceStatus {
    /// The state at the time of the call.
    pub state: ServiceState,
    /// Channels whose runner is active.
    pub active_channels: usize,
    /// Channels configured.
    pub total_channels: usize,
}

impl Clone for ServiceStatus {
    fn clone(&self) -> (r: Self)
        ensures
            r == *self,
    {
        ServiceStatus {
            state: self.state.clone(),
            active_channels: self.active_channels,
            total_channels: self.total_channels,
        }
    }
}

/// How many of the reported outcomes are successes.
pub open spec fn count_true(s: Seq<bool>) -> nat
    decreases s.len(),
{
    if s.len() == 0 {
        0
    } else {
        count_true(s.drop_last()) + if s.last() {
            1nat
        } else {
            0nat
        }
    }
}

/// No more successes than outcomes.
pub proof fn lemma_count_true_le(s: Seq<bool>)
    ensures
        count_true(s) <= s.len(),
    decreases s.len(),
{
    if s.len() > 0 {
        lemma_count_true_le(s.drop_last());
    }
}

/// The local listen ports that the local-forward channels of a
/// configuration ask for, in order.
pub open spec fn spec_listen_ports(chans: Seq<ConnectionView>) -> Seq<u16>
    decreases chans.len(),
{
    if chans.len() == 0 {
        Seq::empty()
    } else {
        spec_listen_ports(chans.drop_last()) + {
            let c = chans.last();
            if !crate::config::is_forwarded_kind(c) && !crate::config::is_session_kind(c)
                && c.ports.local_port is Some {
                seq![c.ports.local_port->0]
            } else {
                Seq::empty()
            }
        }
    }
}

/// The service orchestrator.
pub struct ServiceManager {
    config: AppConfig,
    state: ServiceState,
    active_count: usize,
}

impl ServiceManager {
    /// The configuration the manager was built with.
    pub closed spec fn spec_config(&self) -> AppConfigView {
        self.config@
    }

    /// The current service state.
    pub closed spec fn spec_state(&self) -> ServiceState {
        self.state
    }

    /// The number of active channels.
    pub closed spec fn spec_active(&self) -> int {
        self.active_count as int
    }

    /// The number of configured channels.
    pub open spec fn spec_total(&self) -> int {
        self.spec_config().channels.len() as int
    }

    /// Validity: never more active channels than configured ones.
    pub open spec fn wf(&self) -> bool {
        0 <= self.spec_active() <= self.spec_total()
    }

    /// A new manager starts stopped, with no active channels.
    pub fn new(config: AppConfig) -> (r: Self)
        ensures
            r.wf(),
            r.spec_config() == config@,
            r.spec_state() is Stopped,
            r.spec_active() == 0,
    {
        ServiceManager { config, state: ServiceState::Stopped, active_count: 0 }
    }

    /// Begins a start: refused unless the service is stopped, in
    /// which case nothing changes; otherwise the state turns to
    /// `Starting`.
    pub fn begin_start(&mut self) -> (r: Result<(), AppError>)
        requires
            old(self).wf(),
        ensures
            final(self).wf(),
            final(self).spec_config() == old(self).spec_config(),
            final(self).spec_active() == old(self).spec_active(),
            r is Ok <==> old(self).spec_state() is Stopped,
            r is Ok ==> final(self).spec_state() is Starting,
            r is Err ==> final(self).spec_state() == old(self).spec_state(),
            r is Err ==> r->Err_0 is Service,
    {
        match &self.state {
            ServiceState::Stopped => {
                self.state = ServiceState::Starting;
                Ok(())
            },
            _ => Err(
                AppError::Service(String::from_str("Service is not stopped")),
            ),
        }
    }

    /// The local listen ports the pre-flight check must probe: those
    /// of every local-forward channel.
    pub fn ports_to_check(&self) -> (r: Vec<u16>)
        ensures
            r@ == spec_listen_ports(self.spec_config().channels),
    {
        let mut out: Vec<u16> = Vec::new();
        let mut i: usize = 0;
        proof {
            assert(self.spec_config().channels.take(0) =~= Seq::<ConnectionView>::empty());
        }
        while i < self.config.channels.len()
            invariant
                0 <= i <= self.config.channels@.len(),
                self.spec_config().channels.len() == self.config.channels@.len(),
                out@ == spec_listen_ports(self.spec_config().channels.take(i as int)),
            decreases self.config.channels@.len() - i,
        {
            let conn = &self.config.channels[i];
            proof {
                reveal_strlit("direct-tcpip");
                reveal_strlit("forwarded-tcpip");
                reveal_strlit("session");
                assert("direct-tcpip"@.len() == 12);
                assert("forwarded-tcpip"@.len() == 15);
                assert("session"@.len() == 7);
                assert(self.spec_config().channels[i as int] == conn@);
                assert(self.spec_config().channels.take(i + 1).drop_last()
                    =~= self.spec_config().channels.take(i as int));
                assert(self.spec_config().channels.take(i + 1).last() == conn@);
            }
            let is_forwarded = match &conn.channel_type {
                Some(t) => str_eq(t.as_str(), "forwarded-tcpip"),
                None => false,
            };
            let is_session = match &conn.channel_type {
                Some(t) => str_eq(t.as_str(), "session"),
                None => false,
            };
            if !is_forwarded && !is_session {
                match conn.ports.local_port {
                    Some(p) => {
                        out.push(p);
                    },
                    None => {},
                }
            }
            i = i + 1;
        }
        proof {
            assert(self.spec_config().channels.take(self.spec_config().channels.len() as int)
                =~= self.spec_config().channels);
        }
        out
    }

    /// Applies the outcome of the pre-flight port probe. Any
    /// occupied port fails the whole start — the state turns to
    /// `Error` and zero channels start; with none occupied the start
    /// goes on.
    pub fn apply_port_check(&mut self, occupied: &Vec<u16>) -> (r: Result<(), AppError>)
        requires
            old(self).wf(),
            old(self).spec_state() is Starting,
        ensures
            final(self).wf(),
            final(self).spec_config() == old(self).spec_config(),
            r is Ok <==> occupied@.len() == 0,
            r is Ok ==> final(self).spec_state() is Starting,
            r is Ok ==> final(self).spec_active() == old(self).spec_active(),
            r is Err ==> final(self).spec_state() is Error && final(self).spec_active() == 0,
            r is Err ==> r->Err_0 is Service,
    {
        if occupied.len() == 0 {
            return Ok(());
        }
        let mut m = String::from_str("Port(s) already in use: ");
        let mut i: usize = 0;
        while i < occupied.len()
            decreases occupied@.len() - i,
        {
            if i > 0 {
                m.append(", ");
            }
            let part = dec_string_u64(occupied[i] as u64);
            m.append(part.as_str());
            i = i + 1;
        }
        m.append(
            ". Please stop the application using these ports or change the configuration.",
        );
        self.state = ServiceState::Error(m.clone());
        self.active_count = 0;
        Err(AppError::Service(m))
    }

    /// Resolves every configured channel, one result per channel in
    /// order: the descriptors to hand to runners, and the
    /// configuration errors of the channels that do not resolve.
    pub fn plan_channels(&self) -> (r: Vec<Result<ChannelConfig, AppError>>)
        ensures
            r@.len() == self.spec_config().channels.len(),
            forall|i: int|
                0 <= i < r@.len() ==> ((#[trigger] r@[i]) is Ok <==> resolvable(
                    self.spec_config().hosts,
                    self.spec_config().channels[i],
                )),
            forall|i: int|
                0 <= i < r@.len() ==> ((#[trigger] r@[i]) is Ok ==> r@[i]->Ok_0@ == resolution(
                    self.spec_config().hosts,
                    self.spec_config().channels[i],
                )),
            forall|i: int|
                0 <= i < r@.len() ==> ((#[trigger] r@[i]) is Err ==> r@[i]->Err_0 is Config),
            forall|i: int|
                0 <= i < r@.len() ==> ((#[trigger] r@[i]) is Err ==> crate::error::error_message(
                    r@[i]->Err_0,
                ) == crate::config::resolve_error_message(
                    self.spec_config().hosts,
                    self.spec_config().channels[i],
                )),
    {
        self.config.resolve_channels()
    }

    /// Finishes a start from the per-channel outcomes: `started[i]`
    /// says whether channel `i`'s runner came up (false also for the
    /// channels that did not resolve). The active count becomes the
    /// number of successes; the service runs if at least one channel
    /// started and otherwise fails.
    pub fn complete_start(&mut self, started: &Vec<bool>) -> (r: Result<(), AppError>)
        requires
            old(self).wf(),
            old(self).spec_state() is Starting,
            started@.len() == old(self).spec_config().channels.len(),
        ensures
            final(self).wf(),
            final(self).spec_config() == old(self).spec_config(),
            final(self).spec_active() == count_true(started@),
            final(self).spec_active() <= final(self).spec_total(),
            r is Ok <==> count_true(started@) > 0,
            r is Ok ==> final(self).spec_state() is Running,
            r is Err ==> final(self).spec_state() is Error,
            r is Err ==> r->Err_0 is Service,
    {
        let mut n: usize = 0;
        let mut i: usize = 0;
        proof {
            assert(started@.take(0) =~= Seq::<bool>::empty());
            lemma_count_true_le(started@);
        }
        while i < started.len()
            invariant
                0 <= i <= started@.len(),
                n == count_true(started@.take(i as int)),
                n <= i,
            decreases started@.len() - i,
        {
            proof {
                assert(started@.take(i + 1).drop_last() =~= started@.take(i as int));
            }
            if started[i] {
                n = n + 1;
            }
            i = i + 1;
        }
        proof {
            assert(started@.take(started@.len() as int) =~= started@);
        }
        self.active_count = n;
        if n > 0 {
            self.state = ServiceState::Running;
            Ok(())
        } else {
            let m = String::from_str("Failed to start any channels");
            self.state = ServiceState::Error(m.clone());
            Err(AppError::Service(m))
        }
    }

    /// Begins a stop: refused unless the service is running, in
    /// which case nothing changes at all; otherwise the state turns
    /// to `Stopping` while the runners are being stopped.
    pub fn begin_stop(&mut self) -> (r: Result<(), AppError>)
        requires
            old(self).wf(),
        ensures
            final(self).wf(),
            final(self).spec_config() == old(self).spec_config(),
            r is Ok <==> old(self).spec_state() is Running,
            r is Ok ==> final(self).spec_state() is Stopping,
            r is Ok ==> final(self).spec_active() == old(self).spec_active(),
            r is Err ==> final(self).spec_state() == old(self).spec_state(),
            r is Err ==> final(self).spec_active() == old(self).spec_active(),
            r is Err ==> r->Err_0 is Service,
    {
        match &self.state {
            ServiceState::Running => {
                self.state = ServiceState::Stopping;
                Ok(())
            },
            _ => Err(
                AppError::Service(String::from_str("Service is not running")),
            ),
        }
    }

    /// Finishes a stop once every runner was told to stop: the
    /// active set empties and the state reaches `Stopped`
    /// unconditionally, whatever errors the individual stops
    /// produced.
    pub fn finish_stop(&mut self)
        requires
            old(self).wf(),
            old(self).spec_state() is Stopping,
        ensures
            final(self).wf(),
            final(self).spec_config() == old(self).spec_config(),
            final(self).spec_state() is Stopped,
            final(self).spec_active() == 0,
    {
        self.active_count = 0;
        self.state = ServiceState::Stopped;
    }

    /// Stops the service in one call: refused unless it is running,
    /// in which case nothing changes; otherwise the active set
    /// empties and the state reaches `Stopped`.
    pub fn stop(&mut self) -> (r: Result<(), AppError>)
        requires
            old(self).wf(),
        ensures
            final(self).wf(),
            final(self).spec_config() == old(self).spec_config(),
            r is Ok <==> old(self).spec_state() is Running,
            r is Ok ==> final(self).spec_state() is Stopped && final(self).spec_active() == 0,
            r is Err ==> final(self).spec_state() == old(self).spec_state(),
            r is Err ==> final(self).spec_active() == old(self).spec_active(),
            r is Err ==> r->Err_0 is Service,
    {
        match self.begin_stop() {
            Ok(()) => {
                self.finish_stop();
                Ok(())
            },
            Err(e) => Err(e),
        }
    }

    /// A snapshot of the current state and channel counts. The
    /// result is a pure function of the manager, so two calls with
    /// no mutation between them return identical snapshots.
    pub fn status(&self) -> (r: ServiceStatus)
        requires
            self.wf(),
        ensures
            r.state == self.spec_state(),
            r.active_channels == self.spec_active(),
            r.total_channels == self.spec_total(),
            r.active_channels <= r.total_channels,
    {
        ServiceStatus {
            state: self.state.clone(),
            active_channels: self.active_count,
            total_channels: self.config.channels.len(),
        }
    }
}

/// Two status snapshots of one unchanged manager are identical.
pub proof fn lemma_status_stable(m: &ServiceManager, a: ServiceStatus, b: ServiceStatus)
    requires
        a.state == m.spec_state() && a.active_channels == m.spec_active() && a.total_channels
            == m.spec_total(),
        b.state == m.spec_state() && b.active_channels == m.spec_active() && b.total_channels
            == m.spec_total(),
    ensures
        a.state == b.state,
        a.active_channels == b.active_channels,
        a.total_channels == b.total_channels,
{
}

} // verus!
