//! The watch over a connection: when to reconnect, when to renew the forwarded port, when to
//! restart the container.
//!
//! The monitor is told what happened and answers with what is to be done, in order. Where one of
//! the answers has an outcome, the outcome is the next thing that the monitor is told.

use vstd::prelude::*;

use crate::signature;
use crate::signature::{BindPort, Payload, Signature, SignatureView};
use crate::text;

verus! {

/// The seconds between two renewals of the forwarded port.
pub const REFRESH_INTERVAL_SECS: u64 = 900;

/// What the monitor waits for.
#[derive(Debug, PartialEq, Eq)]
pub enum Phase {
    /// The next report of the health check, or the time to renew the port.
    Idle,
    /// The answer to a request for a signature.
    AwaitingSignature,
    /// What the payload of a new signature says.
    AwaitingPayload { signature: Signature },
    /// The answer to a request to bind the port.
    AwaitingBind,
    /// The outcome of a reconnection.
    Reconnecting,
    /// Nothing: the container restarts.
    Stopped,
}

/// A `Phase` with its signature as a `SignatureView`.
pub enum PhaseView {
    Idle,
    AwaitingSignature,
    AwaitingPayload { signature: SignatureView },
    AwaitingBind,
    Reconnecting,
    Stopped,
}

impl View for Phase {
    type V = PhaseView;

    open spec fn view(&self) -> PhaseView {
        match *self {
            Phase::Idle => PhaseView::Idle,
            Phase::AwaitingSignature => PhaseView::AwaitingSignature,
            Phase::AwaitingPayload { signature } => PhaseView::AwaitingPayload {
                signature: signature@,
            },
            Phase::AwaitingBind => PhaseView::AwaitingBind,
            Phase::Reconnecting => PhaseView::Reconnecting,
            Phase::Stopped => PhaseView::Stopped,
        }
    }
}

/// The forwarded port.
#[derive(Debug, PartialEq, Eq)]
pub struct Forwarding {
    /// The name of the server that forwards the port.
    pub server_cn: String,
    /// What grants the port.
    pub signature: Signature,
    /// What the signature says.
    pub payload: Payload,
    /// Whether the connection file is kept.
    pub connection_file: bool,
    /// Whether the port file is kept.
    pub port_file: bool,
}

/// A `Forwarding` with its texts as sequences of characters.
pub struct ForwardingView {
    pub server_cn: Seq<char>,
    pub signature: SignatureView,
    pub payload: Payload,
    pub connection_file: bool,
    pub port_file: bool,
}

impl View for Forwarding {
    type V = ForwardingView;

    open spec fn view(&self) -> ForwardingView {
        ForwardingView {
            server_cn: self.server_cn@,
            signature: self.signature@,
            payload: self.payload,
            connection_file: self.connection_file,
            port_file: self.port_file,
        }
    }
}

/// The watch over a connection.
#[derive(Debug, PartialEq, Eq)]
pub struct Monitor {
    /// The failed attempts after which the container restarts.
    pub max_attempts: u32,
    /// The attempts since the last success: reconnections, the one under way with them, and
    /// requests to bind the port that failed.
    pub attempts: u32,
    /// The public address of the connection.
    pub address: String,
    /// The forwarded port, where there is one.
    pub forwarding: Option<Forwarding>,
    /// What the monitor waits for.
    pub phase: Phase,
}

/// A `Monitor` with its texts as sequences of characters.
pub struct MonitorView {
    pub max_attempts: nat,
    pub attempts: nat,
    pub address: Seq<char>,
    pub forwarding: Option<ForwardingView>,
    pub phase: PhaseView,
}

impl View for Monitor {
    type V = MonitorView;

    open spec fn view(&self) -> MonitorView {
        MonitorView {
            max_attempts: self.max_attempts as nat,
            attempts: self.attempts as nat,
            address: self.address@,
            forwarding: match self.forwarding {
                Some(f) => Some(f@),
                None => None,
            },
            phase: self.phase@,
        }
    }
}

/// What the monitor is told.
#[derive(Debug, PartialEq, Eq)]
pub enum Event {
    /// A report of the health check.
    Health { healthy: bool },
    /// It is time to renew the port. The time is in seconds since the start of 1970.
    RefreshDue { now: i64 },
    /// The answer to a request for a signature, where one came.
    SignatureReply { signature: Option<Signature> },
    /// What the payload of the new signature says.
    PayloadRead { payload: Payload },
    /// The answer to a request to bind the port, where one came.
    BindReply { reply: Option<BindPort> },
    /// The outcome of a reconnection: the new address, where it succeeded.
    Reconnected { address: Option<String> },
}

/// An `Event` with its texts as sequences of characters. Of the answer to a request to bind the
/// port, only its status is kept.
pub enum EventView {
    Health { healthy: bool },
    RefreshDue { now: int },
    SignatureReply { signature: Option<SignatureView> },
    PayloadRead { payload: Payload },
    BindReply { status: Option<Seq<char>> },
    Reconnected { address: Option<Seq<char>> },
}

impl View for Event {
    type V = EventView;

    open spec fn view(&self) -> EventView {
        match *self {
            Event::Health { healthy } => EventView::Health { healthy },
            Event::RefreshDue { now } => EventView::RefreshDue { now: now as int },
            Event::SignatureReply { signature } => EventView::SignatureReply {
                signature: match signature {
                    Some(s) => Some(s@),
                    None => None,
                },
            },
            Event::PayloadRead { payload } => EventView::PayloadRead { payload },
            Event::BindReply { reply } => EventView::BindReply {
                status: match reply {
                    Some(b) => Some(b.status@),
                    None => None,
                },
            },
            Event::Reconnected { address } => EventView::Reconnected {
                address: address.deep_view(),
            },
        }
    }
}

/// What is to be done.
#[derive(Debug, PartialEq, Eq)]
pub enum Action {
    /// Ask the server for a signature. The outcome is a `SignatureReply`.
    FetchSignature { url: String },
    /// Read the payload of a signature. The outcome is a `PayloadRead`.
    ReadPayload { encoded: String },
    /// Write a file.
    WriteFile { path: String, contents: String },
    /// Ask the server to bind the port. The outcome is a `BindReply`.
    BindPort { url: String, payload: String, signature: String },
    /// Reconnect. The outcome is a `Reconnected`.
    Reconnect { attempt: u32 },
    /// Restart the container.
    Restart,
}

/// An `Action` with its texts as sequences of characters.
pub enum ActionView {
    FetchSignature { url: Seq<char> },
    ReadPayload { encoded: Seq<char> },
    WriteFile { path: Seq<char>, contents: Seq<char> },
    BindPort { url: Seq<char>, payload: Seq<char>, signature: Seq<char> },
    Reconnect { attempt: nat },
    Restart,
}

impl View for Action {
    type V = ActionView;

    open spec fn view(&self) -> ActionView {
        match *self {
            Action::FetchSignature { url } => ActionView::FetchSignature { url: url@ },
            Action::ReadPayload { encoded } => ActionView::ReadPayload { encoded: encoded@ },
            Action::WriteFile { path, contents } => ActionView::WriteFile {
                path: path@,
                contents: contents@,
            },
            Action::BindPort { url, payload, signature } => ActionView::BindPort {
                url: url@,
                payload: payload@,
                signature: signature@,
            },
            Action::Reconnect { attempt } => ActionView::Reconnect { attempt: attempt as nat },
            Action::Restart => ActionView::Restart,
        }
    }
}

impl DeepView for Action {
    type V = ActionView;

    open spec fn deep_view(&self) -> ActionView {
        self.view()
    }
}

/// The address of a service on the port that the servers keep for forwarding.
pub open spec fn service_url(server_cn: Seq<char>, service: Seq<char>) -> Seq<char> {
    "https://"@ + server_cn + ":19999/"@ + service
}

/// Where a signature is asked for.
pub fn signature_url(server_cn: &str) -> (r: String)
    ensures
        r@ == service_url(server_cn@, "getSignature"@),
{
    "https://".to_owned().concat(server_cn).concat(":19999/").concat("getSignature")
}

/// Where the port is bound.
pub fn bind_url(server_cn: &str) -> (r: String)
    ensures
        r@ == service_url(server_cn@, "bindPort"@),
{
    "https://".to_owned().concat(server_cn).concat(":19999/").concat("bindPort")
}

/// The socket address of the services that forward ports, from the address of the server inside
/// the tunnel.
pub fn forwarding_socket(api: &str) -> (r: String)
    ensures
        r@ == api@ + ":19999"@,
{
    api.to_owned().concat(":19999")
}

/// The request to bind the port that is forwarded.
pub open spec fn bind_request(f: ForwardingView) -> ActionView {
    ActionView::BindPort {
        url: service_url(f.server_cn, "bindPort"@),
        payload: f.signature.payload,
        signature: f.signature.signature,
    }
}

/// Whether an event can happen to the monitor: a report or a time to renew only where it waits for
/// them, an outcome only where it waits for that outcome. Where the count of the attempts grows, it
/// has room for one more.
pub open spec fn can_happen(m: MonitorView, e: EventView) -> bool {
    match e {
        EventView::Health { healthy } => m.phase is Idle && (healthy || m.attempts < u32::MAX),
        EventView::RefreshDue { .. } => m.phase is Idle && m.forwarding is Some,
        EventView::SignatureReply { .. } => m.phase is AwaitingSignature && m.forwarding is Some,
        EventView::PayloadRead { .. } => m.phase is AwaitingPayload && m.forwarding is Some,
        EventView::BindReply { status } => m.phase is AwaitingBind && (status == Some(
            signature::GRANTED@,
        ) || m.attempts < u32::MAX),
        EventView::Reconnected { .. } => m.phase is Reconnecting,
    }
}

/// What follows a refresh of the signature: the port is bound, unless too many attempts have
/// failed.
pub open spec fn bind_or_restart(m: MonitorView) -> (MonitorView, Seq<ActionView>) {
    if m.attempts >= m.max_attempts {
        (MonitorView { phase: PhaseView::Stopped, ..m }, seq![ActionView::Restart])
    } else {
        (MonitorView { phase: PhaseView::AwaitingBind, ..m }, seq![bind_request(m.forwarding->0)])
    }
}

/// The file that tells other programs the port.
pub open spec fn port_file_actions(f: ForwardingView) -> Seq<ActionView> {
    if f.port_file {
        seq![
            ActionView::WriteFile {
                path: signature::PORT_FILE@,
                contents: text::decimal(f.payload.port as int),
            },
        ]
    } else {
        Seq::empty()
    }
}

/// The file that tells other programs the address and the port.
pub open spec fn connection_file_actions(m: MonitorView) -> Seq<ActionView> {
    match m.forwarding {
        Some(f) => if f.connection_file {
            seq![
                ActionView::WriteFile {
                    path: signature::CONNECTION_FILE@,
                    contents: signature::connection_text(f.payload.port as int, m.address),
                },
            ]
        } else {
            Seq::empty()
        },
        None => Seq::empty(),
    }
}

/// What an event makes of the monitor, and what is to be done.
pub open spec fn response(m: MonitorView, e: EventView) -> (MonitorView, Seq<ActionView>) {
    match e {
        EventView::Health { healthy } => if healthy {
            (m, Seq::empty())
        } else {
            let counted = MonitorView { attempts: m.attempts + 1, ..m };
            if counted.attempts > m.max_attempts {
                (MonitorView { phase: PhaseView::Stopped, ..counted }, seq![ActionView::Restart])
            } else {
                (
                    MonitorView { phase: PhaseView::Reconnecting, ..counted },
                    seq![ActionView::Reconnect { attempt: counted.attempts }],
                )
            }
        },
        EventView::RefreshDue { now } => {
            let f = m.forwarding->0;
            if f.payload.has_expired(now) {
                (
                    MonitorView { phase: PhaseView::AwaitingSignature, ..m },
                    seq![
                        ActionView::FetchSignature {
                            url: service_url(f.server_cn, "getSignature"@),
                        },
                    ],
                )
            } else {
                (MonitorView { phase: PhaseView::AwaitingBind, ..m }, seq![bind_request(f)])
            }
        },
        EventView::SignatureReply { signature } => if signature is Some && signature->0.status
            == signature::GRANTED@ {
            (
                MonitorView {
                    phase: PhaseView::AwaitingPayload { signature: signature->0 },
                    ..m
                },
                seq![ActionView::ReadPayload { encoded: signature->0.payload }],
            )
        } else {
            bind_or_restart(m)
        },
        EventView::PayloadRead { payload } => {
            let f = ForwardingView {
                signature: m.phase->signature,
                payload,
                ..m.forwarding->0
            };
            let renewed = MonitorView { forwarding: Some(f), attempts: 0, ..m };
            let (next, actions) = bind_or_restart(renewed);
            (next, port_file_actions(f) + actions)
        },
        EventView::BindReply { status } => {
            let bound = status == Some(signature::GRANTED@);
            (
                MonitorView {
                    attempts: if bound {
                        0
                    } else {
                        m.attempts + 1
                    },
                    phase: PhaseView::Idle,
                    ..m
                },
                Seq::empty(),
            )
        },
        EventView::Reconnected { address } => match address {
            Some(a) => {
                let connected = MonitorView {
                    address: a,
                    attempts: 0,
                    phase: PhaseView::Idle,
                    ..m
                };
                (connected, connection_file_actions(connected))
            },
            None => if m.attempts >= m.max_attempts {
                (MonitorView { phase: PhaseView::Stopped, ..m }, seq![ActionView::Restart])
            } else {
                (MonitorView { phase: PhaseView::Idle, ..m }, Seq::empty())
            },
        },
    }
}

/// A monitor at the start of the watch over a connection.
pub open spec fn fresh(
    max_attempts: nat,
    address: Seq<char>,
    forwarding: Option<ForwardingView>,
) -> MonitorView {
    MonitorView { max_attempts, attempts: 0, address, forwarding, phase: PhaseView::Idle }
}

fn no_actions() -> (r: Vec<Action>)
    ensures
        r.deep_view() == Seq::<ActionView>::empty(),
{
    let r: Vec<Action> = Vec::new();
    assert(r.deep_view() =~= Seq::<ActionView>::empty());
    r
}

fn one_action(a: Action) -> (r: Vec<Action>)
    ensures
        r.deep_view() == seq![a@],
{
    let mut r: Vec<Action> = Vec::new();
    r.push(a);
    assert(r.deep_view() =~= seq![a@]);
    r
}

impl Forwarding {
    fn bind_request(&self) -> (r: Action)
        ensures
            r@ == bind_request(self@),
    {
        Action::BindPort {
            url: bind_url(self.server_cn.as_str()),
            payload: self.signature.payload.clone(),
            signature: self.signature.signature.clone(),
        }
    }

    fn port_file_actions(&self) -> (r: Vec<Action>)
        ensures
            r.deep_view() == port_file_actions(self@),
    {
        if self.port_file {
            one_action(
                Action::WriteFile {
                    path: signature::PORT_FILE.to_owned(),
                    contents: text::write_decimal(self.payload.port),
                },
            )
        } else {
            no_actions()
        }
    }
}

impl Monitor {
    /// The watch over a new connection.
    pub fn new(max_attempts: u32, address: String, forwarding: Option<Forwarding>) -> (r: Monitor)
        ensures
            r@ == fresh(
                max_attempts as nat,
                address@,
                match forwarding {
                    Some(f) => Some(f@),
                    None => None,
                },
            ),
    {
        Monitor { max_attempts, attempts: 0, address, forwarding, phase: Phase::Idle }
    }

    /// Whether an event can happen to the monitor.
    pub fn accepts(&self, event: &Event) -> (r: bool)
        ensures
            r == can_happen(self@, event@),
    {
        match event {
            Event::Health { healthy } => match self.phase {
                Phase::Idle => *healthy || self.attempts < u32::MAX,
                _ => false,
            },
            Event::RefreshDue { .. } => match self.phase {
                Phase::Idle => self.forwarding.is_some(),
                _ => false,
            },
            Event::SignatureReply { .. } => match self.phase {
                Phase::AwaitingSignature => self.forwarding.is_some(),
                _ => false,
            },
            Event::PayloadRead { .. } => match self.phase {
                Phase::AwaitingPayload { .. } => self.forwarding.is_some(),
                _ => false,
            },
            Event::BindReply { reply } => match self.phase {
                Phase::AwaitingBind => self.attempts < u32::MAX || match reply {
                    Some(b) => b.granted(),
                    None => false,
                },
                _ => false,
            },
            Event::Reconnected { .. } => match self.phase {
                Phase::Reconnecting => true,
                _ => false,
            },
        }
    }

    fn bind_or_restart(self) -> (r: (Monitor, Vec<Action>))
        requires
            self.forwarding is Some,
        ensures
            (r.0@, r.1.deep_view()) == bind_or_restart(self@),
    {
        if self.attempts >= self.max_attempts {
            (Monitor { phase: Phase::Stopped, ..self }, one_action(Action::Restart))
        } else {
            let request: Action = match &self.forwarding {
                Some(f) => f.bind_request(),
                None => Action::Restart,
            };
            (Monitor { phase: Phase::AwaitingBind, ..self }, one_action(request))
        }
    }

    fn connection_file_actions(&self) -> (r: Vec<Action>)
        ensures
            r.deep_view() == connection_file_actions(self@),
    {
        match &self.forwarding {
            Some(f) => if f.connection_file {
                one_action(
                    Action::WriteFile {
                        path: signature::CONNECTION_FILE.to_owned(),
                        contents: signature::connection_json(f.payload.port, self.address.as_str()),
                    },
                )
            } else {
                no_actions()
            },
            None => no_actions(),
        }
    }

    fn on_health(self, healthy: bool) -> (r: (Monitor, Vec<Action>))
        requires
            can_happen(self@, EventView::Health { healthy }),
        ensures
            (r.0@, r.1.deep_view()) == response(self@, EventView::Health { healthy }),
    {
        if healthy {
            (self, no_actions())
        } else {
            let attempt: u32 = self.attempts + 1;
            if attempt > self.max_attempts {
                (
                    Monitor { attempts: attempt, phase: Phase::Stopped, ..self },
                    one_action(Action::Restart),
                )
            } else {
                (
                    Monitor { attempts: attempt, phase: Phase::Reconnecting, ..self },
                    one_action(Action::Reconnect { attempt }),
                )
            }
        }
    }

    fn on_refresh(self, now: i64) -> (r: (Monitor, Vec<Action>))
        requires
            can_happen(self@, EventView::RefreshDue { now: now as int }),
        ensures
            (r.0@, r.1.deep_view()) == response(self@, EventView::RefreshDue { now: now as int }),
    {
        match &self.forwarding {
            Some(f) => if f.payload.expired(now) {
                let url: String = signature_url(f.server_cn.as_str());
                (
                    Monitor { phase: Phase::AwaitingSignature, ..self },
                    one_action(Action::FetchSignature { url }),
                )
            } else {
                let request: Action = f.bind_request();
                (Monitor { phase: Phase::AwaitingBind, ..self }, one_action(request))
            },
            None => (self, no_actions()),
        }
    }

    fn on_signature(self, signature: Option<Signature>) -> (r: (Monitor, Vec<Action>))
        requires
            can_happen(self@, Event::SignatureReply { signature }@),
        ensures
            (r.0@, r.1.deep_view()) == response(self@, Event::SignatureReply { signature }@),
    {
        match signature {
            Some(s) => if s.granted() {
                let encoded: String = s.payload.clone();
                (
                    Monitor { phase: Phase::AwaitingPayload { signature: s }, ..self },
                    one_action(Action::ReadPayload { encoded }),
                )
            } else {
                self.bind_or_restart()
            },
            None => self.bind_or_restart(),
        }
    }

    fn on_payload(self, payload: Payload) -> (r: (Monitor, Vec<Action>))
        requires
            can_happen(self@, EventView::PayloadRead { payload }),
        ensures
            (r.0@, r.1.deep_view()) == response(self@, EventView::PayloadRead { payload }),
    {
        match self {
            Monitor {
                max_attempts,
                attempts: _,
                address,
                forwarding: Some(f),
                phase: Phase::AwaitingPayload { signature },
            } => {
                let renewed: Forwarding = Forwarding { signature, payload, ..f };
                let mut actions: Vec<Action> = renewed.port_file_actions();
                let ghost first = actions.deep_view();
                let next: Monitor = Monitor {
                    max_attempts,
                    attempts: 0,
                    address,
                    forwarding: Some(renewed),
                    phase: Phase::Idle,
                };
                let (next, mut rest): (Monitor, Vec<Action>) = next.bind_or_restart();
                let ghost last = rest.deep_view();
                actions.append(&mut rest);
                assert(actions.deep_view() =~= first + last);
                (next, actions)
            },
            other => (other, no_actions()),
        }
    }

    fn on_bind(self, reply: Option<BindPort>) -> (r: (Monitor, Vec<Action>))
        requires
            can_happen(self@, Event::BindReply { reply }@),
        ensures
            (r.0@, r.1.deep_view()) == response(self@, Event::BindReply { reply }@),
    {
        let bound: bool = match &reply {
            Some(b) => b.granted(),
            None => false,
        };
        let attempts: u32 = if bound {
            0
        } else {
            self.attempts + 1
        };
        (Monitor { attempts, phase: Phase::Idle, ..self }, no_actions())
    }

    fn on_reconnected(self, address: Option<String>) -> (r: (Monitor, Vec<Action>))
        requires
            can_happen(self@, Event::Reconnected { address }@),
        ensures
            (r.0@, r.1.deep_view()) == response(self@, Event::Reconnected { address }@),
    {
        match address {
            Some(a) => {
                let connected: Monitor = Monitor {
                    address: a,
                    attempts: 0,
                    phase: Phase::Idle,
                    ..self
                };
                let actions: Vec<Action> = connected.connection_file_actions();
                (connected, actions)
            },
            None => if self.attempts >= self.max_attempts {
                (Monitor { phase: Phase::Stopped, ..self }, one_action(Action::Restart))
            } else {
                (Monitor { phase: Phase::Idle, ..self }, no_actions())
            },
        }
    }

    /// Tells the monitor what happened. Returns the monitor after that, and what is to be done.
    pub fn step(self, event: Event) -> (r: (Monitor, Vec<Action>))
        requires
            can_happen(self@, event@),
        ensures
            (r.0@, r.1.deep_view()) == response(self@, event@),
    {
        match event {
            Event::Health { healthy } => self.on_health(healthy),
            Event::RefreshDue { now } => self.on_refresh(now),
            Event::SignatureReply { signature } => self.on_signature(signature),
            Event::PayloadRead { payload } => self.on_payload(payload),
            Event::BindReply { reply } => self.on_bind(reply),
            Event::Reconnected { address } => self.on_reconnected(address),
        }
    }
}

/// The watch and the answers after a report of bad health and a reconnection that fails.
pub open spec fn failed_round(m: MonitorView) -> (MonitorView, Seq<ActionView>) {
    let (asked, first) = response(m, EventView::Health { healthy: false });
    if can_happen(asked, EventView::Reconnected { address: None }) {
        let (told, second) = response(asked, EventView::Reconnected { address: None });
        (told, first + second)
    } else {
        (asked, first)
    }
}

/// The watch and the answers after so many such rounds.
pub open spec fn failed_rounds(m: MonitorView, rounds: nat) -> (MonitorView, Seq<ActionView>)
    decreases rounds,
{
    if rounds == 0 {
        (m, Seq::empty())
    } else {
        let (before, actions) = failed_rounds(m, (rounds - 1) as nat);
        let (last, more) = failed_round(before);
        (last, actions + more)
    }
}

/// The attempts to reconnect, numbered from 1.
pub open spec fn numbered_attempts(n: nat) -> Seq<ActionView> {
    Seq::new(n, |i: int| ActionView::Reconnect { attempt: (i + 1) as nat })
}

/// A connection that stays bad is reconnected exactly `max_attempts` times; when the last of these
/// attempts has failed, and not before, the container restarts.
pub proof fn law_restart_after_the_last_attempt(m: MonitorView, rounds: nat)
    requires
        m.phase is Idle,
        m.attempts == 0,
        1 <= rounds <= m.max_attempts <= u32::MAX,
    ensures
        can_happen(
            failed_rounds(m, (rounds - 1) as nat).0,
            EventView::Health { healthy: false },
        ),
        failed_rounds(m, rounds) == (if rounds < m.max_attempts {
            (MonitorView { attempts: rounds, ..m }, numbered_attempts(rounds))
        } else {
            (
                MonitorView { attempts: rounds, phase: PhaseView::Stopped, ..m },
                numbered_attempts(rounds).push(ActionView::Restart),
            )
        }),
    decreases rounds,
{
    let before = (rounds - 1) as nat;
    if before == 0 {
        assert(failed_rounds(m, before) == (m, Seq::<ActionView>::empty()));
        assert(numbered_attempts(0) =~= Seq::empty());
    } else {
        law_restart_after_the_last_attempt(m, before);
    }
    let start = MonitorView { attempts: before, ..m };
    assert(failed_rounds(m, before) == (start, numbered_attempts(before)));
    assert(numbered_attempts(rounds) =~= numbered_attempts(before).push(
        ActionView::Reconnect { attempt: rounds },
    ));
    let (last, more) = failed_round(start);
    if rounds < m.max_attempts {
        assert(more =~= seq![ActionView::Reconnect { attempt: rounds }]);
    } else {
        assert(more =~= seq![ActionView::Reconnect { attempt: rounds }, ActionView::Restart]);
    }
    assert(numbered_attempts(before) + more =~= failed_rounds(m, rounds).1);
    if rounds < m.max_attempts {
        assert(numbered_attempts(before) + more =~= numbered_attempts(rounds));
    } else {
        assert(numbered_attempts(before) + more =~= numbered_attempts(rounds).push(
            ActionView::Restart,
        ));
    }
}

/// Where no attempt is allowed, the first report of bad health restarts the container.
pub proof fn law_restart_without_attempts(m: MonitorView)
    requires
        m.max_attempts == 0,
    ensures
        response(m, EventView::Health { healthy: false }).0.phase is Stopped,
        response(m, EventView::Health { healthy: false }).1 == seq![ActionView::Restart],
{
}

/// A report of good health changes nothing and asks for nothing.
pub proof fn law_good_health_changes_nothing(m: MonitorView)
    ensures
        response(m, EventView::Health { healthy: true }) == (m, Seq::<ActionView>::empty()),
{
}

/// The container restarts only when the failed attempts have reached their limit, and nothing
/// happens to the monitor any more once it has asked for a restart.
pub proof fn law_restart_only_at_the_limit(m: MonitorView, e: EventView, later: EventView)
    requires
        can_happen(m, e),
    ensures
        ({
            let (next, actions) = response(m, e);
            &&& actions.contains(ActionView::Restart) <==> next.phase is Stopped
            &&& next.phase is Stopped ==> next.attempts >= m.max_attempts
            &&& next.phase is Stopped ==> !can_happen(next, later)
        }),
{
    let (next, actions) = response(m, e);
    if next.phase is Stopped {
        assert(actions.last() == ActionView::Restart);
        assert(actions[actions.len() - 1] == ActionView::Restart);
    }
    assert(forall|i: int|
        0 <= i < actions.len() && #[trigger] actions[i] == ActionView::Restart
            ==> next.phase is Stopped);
}

/// A reconnection that succeeds and a port that is bound both clear the count of failed attempts.
pub proof fn law_success_clears_the_count(m: MonitorView, address: Seq<char>)
    ensures
        response(m, EventView::Reconnected { address: Some(address) }).0.attempts == 0,
        response(m, EventView::Reconnected { address: Some(address) }).0.address == address,
        response(m, EventView::BindReply { status: Some(signature::GRANTED@) }).0.attempts == 0,
{
}

/// Whatever is asked of the server for the port, it is asked with the signature that is in force.
pub proof fn law_the_signature_in_force_binds_the_port(m: MonitorView, e: EventView, i: int)
    requires
        can_happen(m, e),
        0 <= i < response(m, e).1.len(),
        response(m, e).1[i] is BindPort,
    ensures
        response(m, e).0.forwarding is Some,
        response(m, e).1[i] == bind_request(response(m, e).0.forwarding->0),
        response(m, e).0.phase is AwaitingBind,
{
}

/// The states that a watch can reach: it waits for an answer about a port only where a port is
/// forwarded.
pub open spec fn sound(m: MonitorView) -> bool {
    m.phase is AwaitingSignature || m.phase is AwaitingPayload || m.phase is AwaitingBind
        ==> m.forwarding is Some
}

/// A fresh watch is sound, and every event keeps it so. The limit never changes, and a port is
/// forwarded throughout or not at all.
pub proof fn law_soundness_is_kept(
    max_attempts: nat,
    address: Seq<char>,
    forwarding: Option<ForwardingView>,
    m: MonitorView,
    e: EventView,
)
    requires
        sound(m),
        can_happen(m, e),
    ensures
        sound(fresh(max_attempts, address, forwarding)),
        sound(response(m, e).0),
        response(m, e).0.max_attempts == m.max_attempts,
        response(m, e).0.forwarding is Some == m.forwarding is Some,
{
}

/// The monitor never waits in vain: whatever it waits for can happen to it, as long as the count
/// of failed attempts can grow.
pub proof fn law_what_is_awaited_can_happen(
    m: MonitorView,
    healthy: bool,
    signature: Option<SignatureView>,
    payload: Payload,
    status: Option<Seq<char>>,
    address: Option<Seq<char>>,
)
    requires
        sound(m),
        m.attempts < u32::MAX,
    ensures
        match m.phase {
            PhaseView::Idle => can_happen(m, EventView::Health { healthy }),
            PhaseView::AwaitingSignature => can_happen(m, EventView::SignatureReply { signature }),
            PhaseView::AwaitingPayload { .. } => can_happen(m, EventView::PayloadRead { payload }),
            PhaseView::AwaitingBind => can_happen(m, EventView::BindReply { status }),
            PhaseView::Reconnecting => can_happen(m, EventView::Reconnected { address }),
            PhaseView::Stopped => true,
        },
{
}

/// A new signature is asked for exactly when the one in force has run out, and the port stays what
/// it was until a new signature has been granted and read.
pub proof fn law_the_port_outlives_a_refused_renewal(
    m: MonitorView,
    now: int,
    refused: Option<SignatureView>,
)
    requires
        m.phase is Idle,
        m.forwarding is Some,
        refused is Some ==> refused->0.status != signature::GRANTED@,
    ensures
        ({
            let (asked, actions) = response(m, EventView::RefreshDue { now });
            &&& asked.forwarding == m.forwarding
            &&& asked.phase is AwaitingSignature <==> m.forwarding->0.payload.has_expired(now)
            &&& asked.phase is AwaitingSignature ==> response(
                asked,
                EventView::SignatureReply { signature: refused },
            ).0.forwarding == m.forwarding
        }),
{
}

/// The watch after it was told all of `told`.
pub open spec fn watched(m: MonitorView, told: Seq<EventView>) -> MonitorView
    decreases told.len(),
{
    if told.len() == 0 {
        m
    } else {
        response(watched(m, told.drop_last()), told.last()).0
    }
}

/// Whether each thing that the monitor was told could happen when it was told.
pub open spec fn orderly(m: MonitorView, told: Seq<EventView>) -> bool
    decreases told.len(),
{
    told.len() > 0 ==> orderly(m, told.drop_last()) && can_happen(
        watched(m, told.drop_last()),
        told.last(),
    )
}

/// The attempts since the last success, from what the monitor was told: a report of bad health
/// begins an attempt, an answer that does not bind the port is one; a new address, a port that was
/// bound and a new signature are successes.
pub open spec fn attempts_since_success(told: Seq<EventView>) -> nat
    decreases told.len(),
{
    if told.len() == 0 {
        0
    } else {
        let before = attempts_since_success(told.drop_last());
        match told.last() {
            EventView::Health { healthy } => if healthy {
                before
            } else {
                before + 1
            },
            EventView::RefreshDue { .. } => before,
            EventView::SignatureReply { .. } => before,
            EventView::PayloadRead { .. } => 0,
            EventView::BindReply { status } => if status == Some(signature::GRANTED@) {
                0
            } else {
                before + 1
            },
            EventView::Reconnected { address } => if address is Some {
                0
            } else {
                before
            },
        }
    }
}

/// Over any course of events, the count is that of the attempts since the last success, and a
/// container that restarts has made at least as many of them as are allowed.
pub proof fn law_the_count_is_that_of_the_attempts(m: MonitorView, told: Seq<EventView>)
    requires
        m.attempts == 0,
        !(m.phase is Stopped),
        orderly(m, told),
    ensures
        watched(m, told).attempts == attempts_since_success(told),
        watched(m, told).max_attempts == m.max_attempts,
        watched(m, told).phase is Stopped ==> attempts_since_success(told) >= m.max_attempts,
    decreases told.len(),
{
    if told.len() > 0 {
        law_the_count_is_that_of_the_attempts(m, told.drop_last());
    }
}

/// Whether a list of things to do asks for a reconnection.
pub open spec fn asks_to_reconnect(actions: Seq<ActionView>) -> bool {
    exists|i: int| 0 <= i < actions.len() && #[trigger] actions[i] is Reconnect
}

/// Whether what the monitor was told is a success: a new address, a port that was bound or a new
/// signature.
pub open spec fn is_success(e: EventView) -> bool {
    match e {
        EventView::PayloadRead { .. } => true,
        EventView::BindReply { status } => status == Some(signature::GRANTED@),
        EventView::Reconnected { address } => address is Some,
        _ => false,
    }
}

/// The reconnections that the monitor has asked for since the last success.
pub open spec fn reconnections_since_success(m: MonitorView, told: Seq<EventView>) -> nat
    decreases told.len(),
{
    if told.len() == 0 || is_success(told.last()) {
        0
    } else {
        let before = reconnections_since_success(m, told.drop_last());
        if asks_to_reconnect(response(watched(m, told.drop_last()), told.last()).1) {
            before + 1
        } else {
            before
        }
    }
}

/// Over any course of events, no more reconnections are asked for since the last success than are
/// allowed, and none is under way that the count of the attempts does not allow. After a
/// reconnection that failed, the container restarts exactly when the attempts since the last
/// success have reached their limit.
pub proof fn law_no_more_reconnections_than_allowed(m: MonitorView, told: Seq<EventView>)
    requires
        m.attempts == 0,
        m.phase is Idle,
        orderly(m, told),
    ensures
        watched(m, told).phase is Reconnecting ==> attempts_since_success(told) <= m.max_attempts,
        reconnections_since_success(m, told) <= m.max_attempts,
        reconnections_since_success(m, told) <= attempts_since_success(told),
        told.len() > 0 && told.last() == (EventView::Reconnected { address: None }) ==> (watched(
            m,
            told,
        ).phase is Stopped <==> attempts_since_success(told) >= m.max_attempts),
    decreases told.len(),
{
    law_the_count_is_that_of_the_attempts(m, told);
    if told.len() > 0 {
        law_the_count_is_that_of_the_attempts(m, told.drop_last());
        law_no_more_reconnections_than_allowed(m, told.drop_last());
    }
}

/// A new port is written to `PORT_FILE` before it is bound, wherever the user put the port file at
/// the start.
pub proof fn law_a_new_port_is_written_before_it_is_bound(m: MonitorView, payload: Payload)
    requires
        can_happen(m, EventView::PayloadRead { payload }),
        m.forwarding->0.port_file,
    ensures
        ({
            let (next, actions) = response(m, EventView::PayloadRead { payload });
            &&& actions.len() == 2
            &&& actions[0] == (ActionView::WriteFile {
                path: signature::PORT_FILE@,
                contents: text::decimal(payload.port as int),
            })
            &&& actions[1] is BindPort || actions[1] is Restart
            &&& next.forwarding->0.payload == payload
        }),
{
}

/// After every reconnection the connection file, where it is kept, holds the new address and the
/// port that is forwarded.
pub proof fn law_the_connection_file_follows_the_address(m: MonitorView, address: Seq<char>)
    requires
        m.phase is Reconnecting,
        m.forwarding is Some,
        m.forwarding->0.connection_file,
    ensures
        response(m, EventView::Reconnected { address: Some(address) }).1 == seq![
            ActionView::WriteFile {
                path: signature::CONNECTION_FILE@,
                contents: signature::connection_text(
                    m.forwarding->0.payload.port as int,
                    address,
                ),
            },
        ],
{
}

/// Every refresh leads to a request, at every time. While the signature holds, the port is bound
/// with it; once it has run out, and not before, a new one is asked for. Nothing else changes.
/// Fifteen minutes lie between two refreshes.
pub proof fn law_every_refresh_leads_to_a_request(m: MonitorView, now: int)
    requires
        m.phase is Idle,
        m.forwarding is Some,
    ensures
        ({
            let f = m.forwarding->0;
            let (next, actions) = response(m, EventView::RefreshDue { now });
            &&& actions.len() == 1
            &&& f.payload.expires_at >= now ==> {
                &&& actions[0] == (ActionView::BindPort {
                    url: "https://"@ + f.server_cn + ":19999/"@ + "bindPort"@,
                    payload: f.signature.payload,
                    signature: f.signature.signature,
                })
                &&& next.phase is AwaitingBind
            }
            &&& f.payload.expires_at < now ==> {
                &&& actions[0] == (ActionView::FetchSignature {
                    url: "https://"@ + f.server_cn + ":19999/"@ + "getSignature"@,
                })
                &&& next.phase is AwaitingSignature
            }
            &&& next == (MonitorView { phase: next.phase, ..m })
        }),
        REFRESH_INTERVAL_SECS == 15 * 60,
{
}

/// A signature that is granted is read, and nothing else happens meanwhile. Without one, the port
/// is bound with the signature in force, unless the attempts have reached their limit: then the
/// container restarts.
pub proof fn law_a_renewal_is_read_or_done_without(
    m: MonitorView,
    answer: Option<SignatureView>,
)
    requires
        m.phase is AwaitingSignature,
        m.forwarding is Some,
    ensures
        ({
            let f = m.forwarding->0;
            let granted = answer is Some && answer->0.status == "OK"@;
            let (next, actions) = response(m, EventView::SignatureReply { signature: answer });
            &&& actions.len() == 1
            &&& granted ==> {
                &&& actions[0] == (ActionView::ReadPayload { encoded: answer->0.payload })
                &&& next.phase == (PhaseView::AwaitingPayload { signature: answer->0 })
            }
            &&& !granted && m.attempts < m.max_attempts ==> {
                &&& actions[0] == (ActionView::BindPort {
                    url: "https://"@ + f.server_cn + ":19999/"@ + "bindPort"@,
                    payload: f.signature.payload,
                    signature: f.signature.signature,
                })
                &&& next.phase is AwaitingBind
            }
            &&& !granted && m.attempts >= m.max_attempts ==> actions[0] is Restart
                && next.phase is Stopped
            &&& next == (MonitorView { phase: next.phase, ..m })
        }),
{
}

/// A new signature takes the place of the old one with what it grants, clears the count, goes to
/// the port file where that is kept, and binds the port. Where no attempt is allowed at all, the
/// container restarts instead of binding.
pub proof fn law_a_new_signature_takes_the_place_of_the_old_one(
    m: MonitorView,
    new: SignatureView,
    payload: Payload,
)
    requires
        m.phase == (PhaseView::AwaitingPayload { signature: new }),
        m.forwarding is Some,
    ensures
        ({
            let f = m.forwarding->0;
            let (next, actions) = response(m, EventView::PayloadRead { payload });
            let write = ActionView::WriteFile {
                path: "/tmp/gluetun/forwarded_port"@,
                contents: text::decimal(payload.port as int),
            };
            let request = if m.max_attempts > 0 {
                ActionView::BindPort {
                    url: "https://"@ + f.server_cn + ":19999/"@ + "bindPort"@,
                    payload: new.payload,
                    signature: new.signature,
                }
            } else {
                ActionView::Restart
            };
            &&& f.port_file ==> actions == seq![write, request]
            &&& !f.port_file ==> actions == seq![request]
            &&& next.attempts == 0
            &&& next.max_attempts == m.max_attempts
            &&& next.address == m.address
            &&& next.forwarding is Some
            &&& next.forwarding->0.signature == new
            &&& next.forwarding->0.payload == payload
            &&& next.forwarding->0.server_cn == f.server_cn
            &&& next.forwarding->0.connection_file == f.connection_file
            &&& next.forwarding->0.port_file == f.port_file
            &&& m.max_attempts > 0 ==> next.phase is AwaitingBind
            &&& m.max_attempts == 0 ==> next.phase is Stopped
        }),
{
    let f = m.forwarding->0;
    let actions = response(m, EventView::PayloadRead { payload }).1;
    if f.port_file {
        assert(actions =~= seq![actions[0], actions[1]]);
    } else {
        assert(actions =~= seq![actions[0]]);
    }
}

/// The answer to a request to bind the port asks for nothing and touches the count alone: a port
/// that was bound clears it, any other answer, or none, adds one. The watch goes on.
pub proof fn law_an_answer_to_a_bind_touches_only_the_count(
    m: MonitorView,
    status: Option<Seq<char>>,
)
    requires
        m.phase is AwaitingBind,
    ensures
        ({
            let (next, actions) = response(m, EventView::BindReply { status });
            &&& actions.len() == 0
            &&& next.phase is Idle
            &&& status == Some("OK"@) ==> next.attempts == 0
            &&& status != Some("OK"@) ==> next.attempts == m.attempts + 1
            &&& next == (MonitorView { phase: next.phase, attempts: next.attempts, ..m })
        }),
{
}

/// Bad health begins an attempt with the next number, as long as the limit allows one more, and
/// restarts the container where it does not. Nothing else changes.
pub proof fn law_bad_health_begins_the_next_attempt(m: MonitorView)
    requires
        m.phase is Idle,
    ensures
        ({
            let (next, actions) = response(m, EventView::Health { healthy: false });
            &&& actions.len() == 1
            &&& m.attempts < m.max_attempts ==> {
                &&& actions[0] == (ActionView::Reconnect { attempt: m.attempts + 1 })
                &&& next.phase is Reconnecting
            }
            &&& m.attempts >= m.max_attempts ==> actions[0] is Restart && next.phase is Stopped
            &&& next.attempts == m.attempts + 1
            &&& next == (MonitorView { phase: next.phase, attempts: next.attempts, ..m })
        }),
{
}

/// A reconnection that succeeds brings the new address, clears the count, and writes the connection
/// file where it is kept and nothing where it is not. One that fails changes nothing but the phase:
/// the watch goes on below the limit, and the container restarts at it.
pub proof fn law_the_outcome_of_a_reconnection_is_taken_up(m: MonitorView, found: Seq<char>)
    requires
        m.phase is Reconnecting,
    ensures
        ({
            let (next, actions) = response(m, EventView::Reconnected { address: Some(found) });
            let kept = m.forwarding is Some && m.forwarding->0.connection_file;
            &&& next == (MonitorView {
                address: found,
                attempts: 0,
                phase: next.phase,
                ..m
            })
            &&& next.phase is Idle
            &&& kept ==> actions == seq![
                ActionView::WriteFile {
                    path: "/config/connection.json"@,
                    contents: signature::connection_text(
                        m.forwarding->0.payload.port as int,
                        found,
                    ),
                },
            ]
            &&& !kept ==> actions.len() == 0
        }),
        ({
            let (next, actions) = response(m, EventView::Reconnected { address: None });
            &&& next == (MonitorView { phase: next.phase, ..m })
            &&& m.attempts < m.max_attempts ==> next.phase is Idle && actions.len() == 0
            &&& m.attempts >= m.max_attempts ==> next.phase is Stopped && actions == seq![
                ActionView::Restart,
            ]
        }),
{
}

/// What the monitor takes in each phase, and no more: a report or a refresh while it is idle, a
/// refresh only where a port is forwarded, and an outcome only while it waits for that outcome. A
/// count that is full keeps out only what would add to it.
pub proof fn law_each_phase_takes_its_own_events(m: MonitorView, e: EventView)
    requires
        sound(m),
    ensures
        can_happen(m, e) <==> match m.phase {
            PhaseView::Idle => match e {
                EventView::Health { healthy } => healthy || m.attempts < u32::MAX,
                EventView::RefreshDue { .. } => m.forwarding is Some,
                _ => false,
            },
            PhaseView::AwaitingSignature => e is SignatureReply,
            PhaseView::AwaitingPayload { .. } => e is PayloadRead,
            PhaseView::AwaitingBind => e is BindReply && (e->status == Some("OK"@) || m.attempts
                < u32::MAX),
            PhaseView::Reconnecting => e is Reconnected,
            PhaseView::Stopped => false,
        },
{
}

/// A new watch is idle, has counted nothing, and holds the limit, the address and the port that it
/// was given.
pub proof fn law_a_new_watch_has_counted_nothing(
    max_attempts: nat,
    address: Seq<char>,
    forwarding: Option<ForwardingView>,
)
    ensures
        fresh(max_attempts, address, forwarding).attempts == 0,
        fresh(max_attempts, address, forwarding).phase is Idle,
        fresh(max_attempts, address, forwarding).max_attempts == max_attempts,
        fresh(max_attempts, address, forwarding).address == address,
        fresh(max_attempts, address, forwarding).forwarding == forwarding,
{
}

/// The views of a watch keep every value as it is.
pub proof fn law_the_view_of_a_watch_keeps_all(m: Monitor, f: Forwarding, signature: Signature)
    ensures
        m@.max_attempts == m.max_attempts,
        m@.attempts == m.attempts,
        m@.address == m.address@,
        m.forwarding is None ==> m@.forwarding is None,
        m.forwarding == Some(f) ==> m@.forwarding == Some(f@),
        m@.phase == m.phase@,
        f@.server_cn == f.server_cn@,
        f@.signature == f.signature@,
        f@.payload == f.payload,
        f@.connection_file == f.connection_file,
        f@.port_file == f.port_file,
        Phase::Idle@ is Idle,
        Phase::AwaitingSignature@ is AwaitingSignature,
        (Phase::AwaitingPayload { signature })@ == (PhaseView::AwaitingPayload {
            signature: signature@,
        }),
        Phase::AwaitingBind@ is AwaitingBind,
        Phase::Reconnecting@ is Reconnecting,
        Phase::Stopped@ is Stopped,
{
}

/// The view of an event keeps what the monitor goes by: of an answer to a request to bind the port
/// its status, of everything else all. What did not come is not there.
pub proof fn law_the_view_of_an_event_keeps_what_counts(
    healthy: bool,
    now: i64,
    signature: Signature,
    payload: Payload,
    reply: BindPort,
    address: String,
)
    ensures
        (Event::Health { healthy })@ == (EventView::Health { healthy }),
        (Event::RefreshDue { now })@ == (EventView::RefreshDue { now: now as int }),
        (Event::SignatureReply { signature: Some(signature) })@ == (EventView::SignatureReply {
            signature: Some(signature@),
        }),
        (Event::SignatureReply { signature: None })@ == (EventView::SignatureReply {
            signature: None,
        }),
        (Event::PayloadRead { payload })@ == (EventView::PayloadRead { payload }),
        (Event::BindReply { reply: Some(reply) })@ == (EventView::BindReply {
            status: Some(reply.status@),
        }),
        (Event::BindReply { reply: None })@ == (EventView::BindReply { status: None }),
        (Event::Reconnected { address: Some(address) })@ == (EventView::Reconnected {
            address: Some(address@),
        }),
        (Event::Reconnected { address: None })@ == (EventView::Reconnected { address: None }),
{
}

/// The view of what is to be done keeps every value as it is.
pub proof fn law_the_view_of_an_action_keeps_all(a: String, b: String, c: String, attempt: u32)
    ensures
        (Action::FetchSignature { url: a }).deep_view() == (ActionView::FetchSignature { url: a@ }),
        (Action::ReadPayload { encoded: a }).deep_view() == (ActionView::ReadPayload { encoded: a@ }),
        (Action::WriteFile { path: a, contents: b }).deep_view() == (ActionView::WriteFile {
            path: a@,
            contents: b@,
        }),
        (Action::BindPort { url: a, payload: b, signature: c }).deep_view() == (ActionView::BindPort {
            url: a@,
            payload: b@,
            signature: c@,
        }),
        (Action::Reconnect { attempt }).deep_view() == (ActionView::Reconnect {
            attempt: attempt as nat,
        }),
        Action::Restart.deep_view() is Restart,
{
}

} // verus!
