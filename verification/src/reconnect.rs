//! A reconnection, step by step.
//!
//! The reconnection is told what happened and answers with what is to be done, in order. The last
//! of the answers has an outcome, which is the next thing that the reconnection is told, until it
//! is connected or has given up.

use vstd::prelude::*;

use crate::command;
use crate::command::{CommandLine, CommandView};
use crate::health;
use crate::health::LinkQuery;
use crate::servers;
use crate::servers::{IpAddr, ServerDetails};
use crate::text;

verus! {

/// The seconds between taking the tunnel down and the next step.
pub const SETTLE_SECS: u64 = 2;

/// How often the interface of the tunnel is looked at before it is taken for granted.
pub const LINK_ATTEMPTS: u32 = 30;

/// The seconds between two looks at the interface.
pub const LINK_PAUSE_SECS: u64 = 1;

/// The seconds before the public address is looked up.
pub const ADDRESS_PAUSE_SECS: u64 = 3;

/// How many looks at the interface go by before the user reads of them again.
pub const LINK_LINE_EVERY: u32 = 5;

/// What a reconnection needs to know of the connection. The socket address is always that of the
/// server's address and port.
#[derive(Debug, PartialEq, Eq)]
pub struct VpnState {
    /// The name of the server.
    server_cn: String,
    /// What shows the server that the user has logged in.
    token: String,
    /// The address of the server.
    server_ip: IpAddr,
    /// The port of the server.
    port: i32,
    /// The socket address of the server.
    socket: String,
}

/// A `VpnState` with its texts as sequences of characters.
pub struct VpnView {
    pub server_cn: Seq<char>,
    pub token: Seq<char>,
    pub server_ip: IpAddr,
    pub port: int,
    pub socket: Seq<char>,
}

impl VpnView {
    /// Whether the socket address is that of the server's address and port.
    pub open spec fn resolved(self) -> bool {
        servers::socket_text(self.server_ip, self.port) == Some(self.socket)
    }
}

impl View for VpnState {
    type V = VpnView;

    closed spec fn view(&self) -> VpnView {
        VpnView {
            server_cn: self.server_cn@,
            token: self.token@,
            server_ip: self.server_ip,
            port: self.port as int,
            socket: self.socket@,
        }
    }
}

impl VpnState {
    #[verifier::type_invariant]
    spec fn well_formed(self) -> bool {
        self@.resolved()
    }

    /// What a reconnection to a server needs to know, where the server's address and the port make
    /// a socket address.
    pub fn new(server: &ServerDetails, token: String, port: i32) -> (r: Option<VpnState>)
        ensures
            match r {
                Some(v) => v@.resolved() && v@ == (VpnView {
                    server_cn: server.cn@,
                    token: token@,
                    server_ip: server.ip,
                    port: port as int,
                    socket: v@.socket,
                }),
                None => servers::socket_text(server.ip, port as int) is None,
            },
    {
        match servers::socket_address(&server.ip, port) {
            Some(socket) => Some(
                VpnState { server_cn: server.cn.clone(), token, server_ip: server.ip, port, socket },
            ),
            None => None,
        }
    }

    /// The name of the server.
    pub fn server_cn(&self) -> (r: &str)
        ensures
            r@ == self@.server_cn,
    {
        self.server_cn.as_str()
    }

    /// What shows the server that the user has logged in.
    pub fn token(&self) -> (r: &str)
        ensures
            r@ == self@.token,
    {
        self.token.as_str()
    }

    /// The socket address of the server.
    pub fn socket(&self) -> (r: &str)
        ensures
            r@ == self@.socket,
            servers::socket_text(self@.server_ip, self@.port) == Some(r@),
    {
        proof {
            use_type_invariant(self);
        }
        self.socket.as_str()
    }
}

/// What the reconnection waits for.
#[derive(Debug, Clone, Copy, PartialEq, Eq, Structural)]
pub enum Stage {
    /// The certificate that the servers are trusted by.
    Certificate,
    /// The configuration of the tunnel.
    Config,
    /// What the system says of the interface of the tunnel, for the given time.
    Link { attempt: u32 },
    /// The public address.
    Address,
    /// Nothing.
    Finished,
}

/// What the reconnection is told.
#[derive(Debug, PartialEq, Eq)]
pub enum Progress {
    CertificateFetched,
    ConfigReceived,
    LinkSeen { query: LinkQuery },
    AddressFetched { address: String },
    /// What was asked for could not be had.
    Failed,
}

/// A `Progress` with its text as a sequence of characters.
pub enum ProgressView {
    CertificateFetched,
    ConfigReceived,
    LinkSeen { query: LinkQuery },
    AddressFetched { address: Seq<char> },
    Failed,
}

impl View for Progress {
    type V = ProgressView;

    open spec fn view(&self) -> ProgressView {
        match *self {
            Progress::CertificateFetched => ProgressView::CertificateFetched,
            Progress::ConfigReceived => ProgressView::ConfigReceived,
            Progress::LinkSeen { query } => ProgressView::LinkSeen { query },
            Progress::AddressFetched { address } => ProgressView::AddressFetched {
                address: address@,
            },
            Progress::Failed => ProgressView::Failed,
        }
    }
}

/// What is to be done.
#[derive(Debug, PartialEq, Eq)]
pub enum Task {
    /// Take the tunnel down, whatever comes of it.
    StopTunnel { command: CommandLine },
    /// Wait.
    Sleep { secs: u64 },
    /// Fetch the certificate that the servers are trusted by.
    FetchCertificate,
    /// Ask the server for the configuration of a tunnel, with the server's name resolved to the
    /// socket address.
    RequestConfig { server_cn: String, token: String, port: i32, socket: String },
    /// Write the configuration to a file.
    WriteConfig { path: String },
    /// Bring the tunnel up.
    StartTunnel { command: CommandLine },
    /// Ask the system about the interface of the tunnel.
    QueryLink { attempt: u32 },
    /// Look up the public address.
    FetchAddress,
    /// The reconnection has succeeded.
    Connected { address: String },
    /// The reconnection has failed.
    GiveUp,
}

/// A `Task` with its texts as sequences of characters.
pub enum TaskView {
    StopTunnel { command: CommandView },
    Sleep { secs: nat },
    FetchCertificate,
    RequestConfig { server_cn: Seq<char>, token: Seq<char>, port: int, socket: Seq<char> },
    WriteConfig { path: Seq<char> },
    StartTunnel { command: CommandView },
    QueryLink { attempt: nat },
    FetchAddress,
    Connected { address: Seq<char> },
    GiveUp,
}

impl View for Task {
    type V = TaskView;

    open spec fn view(&self) -> TaskView {
        match *self {
            Task::StopTunnel { command } => TaskView::StopTunnel { command: command@ },
            Task::Sleep { secs } => TaskView::Sleep { secs: secs as nat },
            Task::FetchCertificate => TaskView::FetchCertificate,
            Task::RequestConfig { server_cn, token, port, socket } => TaskView::RequestConfig {
                server_cn: server_cn@,
                token: token@,
                port: port as int,
                socket: socket@,
            },
            Task::WriteConfig { path } => TaskView::WriteConfig { path: path@ },
            Task::StartTunnel { command } => TaskView::StartTunnel { command: command@ },
            Task::QueryLink { attempt } => TaskView::QueryLink { attempt: attempt as nat },
            Task::FetchAddress => TaskView::FetchAddress,
            Task::Connected { address } => TaskView::Connected { address: address@ },
            Task::GiveUp => TaskView::GiveUp,
        }
    }
}

impl DeepView for Task {
    type V = TaskView;

    open spec fn deep_view(&self) -> TaskView {
        self.view()
    }
}

/// The first things to do: the tunnel goes down, and the certificate is fetched.
pub open spec fn opening() -> (Stage, Seq<TaskView>) {
    (
        Stage::Certificate,
        seq![
            TaskView::StopTunnel {
                command: CommandView {
                    program: "wg-quick"@,
                    args: seq!["down"@, command::TUNNEL_CONFIG@],
                },
            },
            TaskView::Sleep { secs: SETTLE_SECS as nat },
            TaskView::FetchCertificate,
        ],
    )
}

/// Whether the reconnection waits for what it is told. The system always says something of the
/// interface, so a look at it does not fail.
pub open spec fn is_awaited(s: Stage, p: ProgressView) -> bool {
    match p {
        ProgressView::CertificateFetched => s is Certificate,
        ProgressView::ConfigReceived => s is Config,
        ProgressView::LinkSeen { .. } => s is Link && 1 <= s->attempt <= LINK_ATTEMPTS,
        ProgressView::AddressFetched { .. } => s is Address,
        ProgressView::Failed => s is Certificate || s is Config || s is Address,
    }
}

/// What becomes of the reconnection, and what is to be done.
pub open spec fn advance(vpn: VpnView, s: Stage, p: ProgressView) -> (Stage, Seq<TaskView>) {
    match p {
        ProgressView::CertificateFetched => (
            Stage::Config,
            seq![
                TaskView::RequestConfig {
                    server_cn: vpn.server_cn,
                    token: vpn.token,
                    port: vpn.port,
                    socket: vpn.socket,
                },
            ],
        ),
        ProgressView::ConfigReceived => (
            Stage::Link { attempt: 1 },
            seq![
                TaskView::WriteConfig { path: command::TUNNEL_CONFIG@ },
                TaskView::StartTunnel {
                    command: CommandView {
                        program: "wg-quick"@,
                        args: seq!["up"@, command::TUNNEL_CONFIG@],
                    },
                },
                TaskView::QueryLink { attempt: 1 },
            ],
        ),
        ProgressView::LinkSeen { query } => if query == (LinkQuery::Found { up: true }) {
            (
                Stage::Address,
                seq![
                    TaskView::Sleep { secs: ADDRESS_PAUSE_SECS as nat },
                    TaskView::FetchAddress,
                ],
            )
        } else if s->attempt < LINK_ATTEMPTS {
            (
                Stage::Link { attempt: (s->attempt + 1) as u32 },
                seq![
                    TaskView::Sleep { secs: LINK_PAUSE_SECS as nat },
                    TaskView::QueryLink { attempt: (s->attempt + 1) as nat },
                ],
            )
        } else {
            (
                Stage::Address,
                seq![
                    TaskView::Sleep { secs: LINK_PAUSE_SECS as nat },
                    TaskView::Sleep { secs: ADDRESS_PAUSE_SECS as nat },
                    TaskView::FetchAddress,
                ],
            )
        },
        ProgressView::AddressFetched { address } => (
            Stage::Finished,
            seq![TaskView::Connected { address: text::trimmed_end(address) }],
        ),
        ProgressView::Failed => (Stage::Finished, seq![TaskView::GiveUp]),
    }
}

/// A reconnection under way.
#[derive(Debug, PartialEq, Eq)]
pub struct Reconnection {
    /// What it waits for.
    pub stage: Stage,
}

/// Starts a reconnection. Returns the first things to do.
pub fn reconnect_vpn() -> (r: (Reconnection, Vec<Task>))
    ensures
        (r.0.stage, r.1.deep_view()) == opening(),
{
    let tasks: Vec<Task> = vec![
        Task::StopTunnel { command: command::stop_wireguard() },
        Task::Sleep { secs: SETTLE_SECS },
        Task::FetchCertificate,
    ];
    assert(tasks.deep_view() =~= opening().1);
    (Reconnection { stage: Stage::Certificate }, tasks)
}

impl Reconnection {
    /// Whether the reconnection waits for what it would be told.
    pub fn accepts(&self, progress: &Progress) -> (r: bool)
        ensures
            r == is_awaited(self.stage, progress@),
    {
        match (progress, self.stage) {
            (Progress::CertificateFetched, Stage::Certificate) => true,
            (Progress::ConfigReceived, Stage::Config) => true,
            (Progress::LinkSeen { .. }, Stage::Link { attempt }) => 1 <= attempt && attempt
                <= LINK_ATTEMPTS,
            (Progress::AddressFetched { .. }, Stage::Address) => true,
            (Progress::Failed, Stage::Certificate) => true,
            (Progress::Failed, Stage::Config) => true,
            (Progress::Failed, Stage::Address) => true,
            _ => false,
        }
    }

    /// Tells the reconnection what happened. Returns what is to be done.
    pub fn step(&mut self, vpn: &VpnState, progress: Progress) -> (r: Vec<Task>)
        requires
            is_awaited(old(self).stage, progress@),
        ensures
            (final(self).stage, r.deep_view()) == advance(vpn@, old(self).stage, progress@),
            vpn@.resolved(),
    {
        proof {
            use_type_invariant(vpn);
        }
        let ghost expected = advance(vpn@, self.stage, progress@);
        match progress {
            Progress::CertificateFetched => {
                self.stage = Stage::Config;
                let tasks: Vec<Task> = vec![
                    Task::RequestConfig {
                        server_cn: vpn.server_cn.clone(),
                        token: vpn.token.clone(),
                        port: vpn.port,
                        socket: vpn.socket.clone(),
                    },
                ];
                assert(tasks.deep_view() =~= expected.1);
                tasks
            },
            Progress::ConfigReceived => {
                self.stage = Stage::Link { attempt: 1 };
                let tasks: Vec<Task> = vec![
                    Task::WriteConfig { path: command::TUNNEL_CONFIG.to_owned() },
                    Task::StartTunnel { command: command::start_wireguard() },
                    Task::QueryLink { attempt: 1 },
                ];
                assert(tasks.deep_view() =~= expected.1);
                tasks
            },
            Progress::LinkSeen { query } => {
                let attempt: u32 = match self.stage {
                    Stage::Link { attempt } => attempt,
                    _ => LINK_ATTEMPTS,
                };
                if health::check_wireguard_interface(query) {
                    self.stage = Stage::Address;
                    let tasks: Vec<Task> = vec![
                        Task::Sleep { secs: ADDRESS_PAUSE_SECS },
                        Task::FetchAddress,
                    ];
                    assert(tasks.deep_view() =~= expected.1);
                    tasks
                } else if attempt < LINK_ATTEMPTS {
                    self.stage = Stage::Link { attempt: attempt + 1 };
                    let tasks: Vec<Task> = vec![
                        Task::Sleep { secs: LINK_PAUSE_SECS },
                        Task::QueryLink { attempt: attempt + 1 },
                    ];
                    assert(tasks.deep_view() =~= expected.1);
                    tasks
                } else {
                    self.stage = Stage::Address;
                    let tasks: Vec<Task> = vec![
                        Task::Sleep { secs: LINK_PAUSE_SECS },
                        Task::Sleep { secs: ADDRESS_PAUSE_SECS },
                        Task::FetchAddress,
                    ];
                    assert(tasks.deep_view() =~= expected.1);
                    tasks
                }
            },
            Progress::AddressFetched { address } => {
                self.stage = Stage::Finished;
                let tasks: Vec<Task> = vec![
                    Task::Connected { address: text::trim_end(address.as_str()) },
                ];
                assert(tasks.deep_view() =~= expected.1);
                tasks
            },
            Progress::Failed => {
                self.stage = Stage::Finished;
                let tasks: Vec<Task> = vec![Task::GiveUp];
                assert(tasks.deep_view() =~= expected.1);
                tasks
            },
        }
    }
}

/// What the user reads of a look at the interface: that it is up, or at every fifth look that it
/// is waited for.
pub open spec fn look_text(query: LinkQuery, attempt: nat) -> Option<Seq<char>> {
    if query == (LinkQuery::Found { up: true }) {
        Some("[INFO] WireGuard interface is up"@)
    } else if attempt % (LINK_LINE_EVERY as nat) == 0 {
        Some(
            "[INFO] Waiting for WireGuard interface... ("@ + text::decimal(attempt as int) + "/"@
                + text::decimal(LINK_ATTEMPTS as int) + ")"@,
        )
    } else {
        None
    }
}

/// What the user reads of a look at the interface.
pub fn look_line(query: LinkQuery, attempt: u32) -> (r: Option<String>)
    ensures
        r.deep_view() == look_text(query, attempt as nat),
{
    if health::check_wireguard_interface(query) {
        Some("[INFO] WireGuard interface is up".to_owned())
    } else if attempt % LINK_LINE_EVERY == 0 {
        Some(
            "[INFO] Waiting for WireGuard interface... (".to_owned().concat(
                text::write_decimal_nat(attempt).as_str(),
            ).concat("/").concat(text::write_decimal_nat(LINK_ATTEMPTS).as_str()).concat(")"),
        )
    } else {
        None
    }
}

/// Where a reconnection stands after it was told all of `told`, and all that was to be done.
pub open spec fn course(vpn: VpnView, told: Seq<ProgressView>) -> (Stage, Seq<TaskView>)
    decreases told.len(),
{
    if told.len() == 0 {
        opening()
    } else {
        let (stage, tasks) = course(vpn, told.drop_last());
        let (next, more) = advance(vpn, stage, told.last());
        (next, tasks + more)
    }
}

/// Whether each thing that the reconnection was told was awaited when it was told.
pub open spec fn orderly(vpn: VpnView, told: Seq<ProgressView>) -> bool
    decreases told.len(),
{
    told.len() > 0 ==> orderly(vpn, told.drop_last()) && is_awaited(
        course(vpn, told.drop_last()).0,
        told.last(),
    )
}

/// How many things a reconnection can still be told.
pub open spec fn steps_left(s: Stage) -> int {
    match s {
        Stage::Certificate => LINK_ATTEMPTS + 3,
        Stage::Config => LINK_ATTEMPTS + 2,
        Stage::Link { attempt } => LINK_ATTEMPTS + 2 - attempt,
        Stage::Address => 1,
        Stage::Finished => 0,
    }
}

/// Every reconnection comes to an end: it is told at most 33 things, one for the certificate, one
/// for the configuration, thirty for the interface and one for the address.
pub proof fn law_every_reconnection_ends(vpn: VpnView, told: Seq<ProgressView>)
    requires
        orderly(vpn, told),
    ensures
        steps_left(course(vpn, told).0) >= 0,
        told.len() + steps_left(course(vpn, told).0) <= 33,
    decreases told.len(),
{
    if told.len() > 0 {
        law_every_reconnection_ends(vpn, told.drop_last());
    }
}

/// The seconds that a list of tasks waits.
pub open spec fn seconds(tasks: Seq<TaskView>) -> nat
    decreases tasks.len(),
{
    if tasks.len() == 0 {
        0
    } else {
        seconds(tasks.drop_last()) + (match tasks.last() {
            TaskView::Sleep { secs } => secs,
            _ => 0,
        })
    }
}

proof fn lemma_seconds_sum(a: Seq<TaskView>, b: Seq<TaskView>)
    ensures
        seconds(a + b) == seconds(a) + seconds(b),
    decreases b.len(),
{
    if b.len() == 0 {
        assert(a + b =~= a);
    } else {
        assert((a + b).drop_last() =~= a + b.drop_last());
        lemma_seconds_sum(a, b.drop_last());
    }
}

/// The seconds that a reconnection at a stage can still wait.
spec fn seconds_left(s: Stage) -> int {
    match s {
        Stage::Certificate => 33,
        Stage::Config => 33,
        Stage::Link { attempt } => 31 - attempt + 3,
        Stage::Address => 0,
        Stage::Finished => 0,
    }
}

/// A reconnection waits no longer than 35 seconds, besides what the tasks themselves take.
pub proof fn law_waiting_is_bounded(vpn: VpnView, told: Seq<ProgressView>)
    requires
        orderly(vpn, told),
    ensures
        seconds(course(vpn, told).1) <= 35,
{
    lemma_waiting(vpn, told);
}

proof fn lemma_waiting(vpn: VpnView, told: Seq<ProgressView>)
    requires
        orderly(vpn, told),
    ensures
        seconds(course(vpn, told).1) + seconds_left(course(vpn, told).0) <= 35,
        seconds_left(course(vpn, told).0) >= 0,
    decreases told.len(),
{
    reveal_with_fuel(seconds, 4);
    if told.len() == 0 {
        let t = opening().1;
        assert(t.drop_last().drop_last().drop_last() =~= Seq::empty());
    } else {
        lemma_waiting(vpn, told.drop_last());
        let (stage, tasks) = course(vpn, told.drop_last());
        let (next, more) = advance(vpn, stage, told.last());
        lemma_seconds_sum(tasks, more);
        if more.len() >= 1 {
            assert(more.drop_last() =~= more.take(more.len() - 1));
        }
    }
}

/// The tunnel goes down before anything else, and it comes up only after the configuration has
/// been written.
pub proof fn law_the_tunnel_goes_down_first(vpn: VpnView, told: Seq<ProgressView>, i: int)
    requires
        0 <= i < course(vpn, told).1.len(),
        course(vpn, told).1[i] is StartTunnel,
    ensures
        course(vpn, told).1[0] is StopTunnel,
        1 <= i,
        course(vpn, told).1[i - 1] is WriteConfig,
    decreases told.len(),
{
    if told.len() > 0 {
        let (stage, tasks) = course(vpn, told.drop_last());
        lemma_opening_comes_first(vpn, told);
        lemma_opening_comes_first(vpn, told.drop_last());
        if i < tasks.len() {
            law_the_tunnel_goes_down_first(vpn, told.drop_last(), i);
        }
    }
}

proof fn lemma_opening_comes_first(vpn: VpnView, told: Seq<ProgressView>)
    ensures
        course(vpn, told).1.len() >= 3,
        course(vpn, told).1[0] == opening().1[0],
    decreases told.len(),
{
    if told.len() > 0 {
        lemma_opening_comes_first(vpn, told.drop_last());
    }
}

/// A reconnection that is over has either the address that was looked up, without white space at
/// its end, or has given up because something failed.
pub proof fn law_the_outcome_is_what_was_told(vpn: VpnView, told: Seq<ProgressView>)
    requires
        orderly(vpn, told),
        course(vpn, told).0 is Finished,
    ensures
        told.len() > 0,
        match told.last() {
            ProgressView::AddressFetched { address } => course(vpn, told).1.last() == (
            TaskView::Connected { address: text::trimmed_end(address) }),
            ProgressView::Failed => course(vpn, told).1.last() == TaskView::GiveUp,
            _ => false,
        },
{
}

/// A reconnection begins by taking the tunnel down, waits two seconds, and then asks for the
/// certificate and for nothing else.
pub proof fn law_a_reconnection_begins_with_the_tunnel_down()
    ensures
        opening().0 is Certificate,
        opening().1.len() == 3,
        opening().1[0] is StopTunnel,
        opening().1[0]->StopTunnel_command.program == "wg-quick"@,
        opening().1[0]->StopTunnel_command.args == seq!["down"@, "/config/wg0.conf"@],
        opening().1[1] == (TaskView::Sleep { secs: 2 }),
        opening().1[2] is FetchCertificate,
{
}

/// Each answer leads one step on: with the certificate the server is asked for a configuration,
/// under its own name, socket address and port and with the user's token; with the configuration
/// the tunnel is set up and comes up; with the address the reconnection is over. Whatever fails
/// ends it.
pub proof fn law_each_answer_leads_one_step_on(vpn: VpnView, s: Stage, address: Seq<char>)
    ensures
        ({
            let (next, tasks) = advance(vpn, s, ProgressView::CertificateFetched);
            &&& next is Config
            &&& tasks.len() == 1
            &&& tasks[0] is RequestConfig
            &&& tasks[0]->server_cn == vpn.server_cn
            &&& tasks[0]->token == vpn.token
            &&& tasks[0]->port == vpn.port
            &&& tasks[0]->socket == vpn.socket
        }),
        ({
            let (next, tasks) = advance(vpn, s, ProgressView::ConfigReceived);
            &&& next == (Stage::Link { attempt: 1 })
            &&& tasks.len() == 3
            &&& tasks[0] == (TaskView::WriteConfig { path: "/config/wg0.conf"@ })
            &&& tasks[1] is StartTunnel
            &&& tasks[1]->StartTunnel_command.program == "wg-quick"@
            &&& tasks[1]->StartTunnel_command.args == seq!["up"@, "/config/wg0.conf"@]
            &&& tasks[2] == (TaskView::QueryLink { attempt: 1 })
        }),
        ({
            let (next, tasks) = advance(vpn, s, ProgressView::AddressFetched { address });
            &&& next is Finished
            &&& tasks.len() == 1
            &&& tasks[0] == (TaskView::Connected { address: text::trimmed_end(address) })
        }),
        ({
            let (next, tasks) = advance(vpn, s, ProgressView::Failed);
            &&& next is Finished
            &&& tasks.len() == 1
            &&& tasks[0] is GiveUp
        }),
{
}

/// An interface that is up is waited for no longer: after three seconds the address is looked up.
/// One that is not up, for whatever reason, is looked at again after a second, thirty times in all;
/// after the last of them, and not before, the address is looked up all the same.
pub proof fn law_the_interface_is_looked_at_thirty_times(
    vpn: VpnView,
    attempt: u32,
    query: LinkQuery,
)
    requires
        1 <= attempt <= 30,
    ensures
        ({
            let (next, tasks) = advance(
                vpn,
                Stage::Link { attempt },
                ProgressView::LinkSeen { query },
            );
            if query == (LinkQuery::Found { up: true }) {
                next is Address && tasks == seq![
                    TaskView::Sleep { secs: 3 },
                    TaskView::FetchAddress,
                ]
            } else if attempt < 30 {
                next == (Stage::Link { attempt: (attempt + 1) as u32 }) && tasks == seq![
                    TaskView::Sleep { secs: 1 },
                    TaskView::QueryLink { attempt: (attempt + 1) as nat },
                ]
            } else {
                next is Address && tasks == seq![
                    TaskView::Sleep { secs: 1 },
                    TaskView::Sleep { secs: 3 },
                    TaskView::FetchAddress,
                ]
            }
        }),
{
}

/// A reconnection waits for the outcome of the last thing that it asked for: what it was asked to
/// fetch may come or fail, a look at the interface always has an outcome, and nothing is awaited
/// once it is over.
pub proof fn law_the_last_task_is_awaited(attempt: u32, p: ProgressView)
    requires
        1 <= attempt <= 30,
    ensures
        is_awaited(Stage::Certificate, p) <==> p is CertificateFetched || p is Failed,
        is_awaited(Stage::Config, p) <==> p is ConfigReceived || p is Failed,
        is_awaited(Stage::Link { attempt }, p) <==> p is LinkSeen,
        is_awaited(Stage::Address, p) <==> p is AddressFetched || p is Failed,
        !is_awaited(Stage::Finished, p),
{
}

/// The user reads of an interface that is up whenever it is found so, and of one that is waited
/// for at every fifth look and at no other.
pub proof fn law_every_fifth_look_is_told(query: LinkQuery, attempt: nat)
    ensures
        look_text(LinkQuery::Found { up: true }, attempt) == Some(
            "[INFO] WireGuard interface is up"@,
        ),
        query != (LinkQuery::Found { up: true }) ==> look_text(query, attempt) == (if attempt % 5
            == 0 {
            Some(
                "[INFO] Waiting for WireGuard interface... ("@ + text::decimal(attempt as int)
                    + "/"@ + text::decimal(30) + ")"@,
            )
        } else {
            None
        }),
{
}

/// The socket address that a reconnection uses is that of the server's own address and port, and
/// it reads back as them.
pub proof fn law_the_server_is_reached_at_its_own_address(
    vpn: VpnView,
    b: [u8; 4],
    w: [u16; 8],
)
    requires
        vpn.resolved(),
    ensures
        vpn.server_ip != IpAddr::V6(w),
        vpn.server_ip == IpAddr::V4(b) ==> ({
            let parts = text::pieces(vpn.socket, ':');
            &&& parts.len() == 2
            &&& parts[1] == text::decimal(vpn.port)
            &&& text::pieces(parts[0], '.').len() == 4
            &&& forall|i: int|
                0 <= i < 4 ==> #[trigger] text::pieces(parts[0], '.')[i] == text::decimal(
                    b@[i] as int,
                )
        }),
{
    servers::law_a_socket_address_reads_back(b, w, vpn.port);
}

/// The views keep every value as it is.
pub proof fn law_the_views_of_a_reconnection_keep_all(
    command: CommandLine,
    secs: u64,
    a: String,
    b: String,
    c: String,
    port: i32,
    attempt: u32,
    query: LinkQuery,
)
    ensures
        (Task::StopTunnel { command }).deep_view() == (TaskView::StopTunnel { command: command@ }),
        (Task::Sleep { secs }).deep_view() == (TaskView::Sleep { secs: secs as nat }),
        Task::FetchCertificate.deep_view() is FetchCertificate,
        (Task::RequestConfig { server_cn: a, token: b, port, socket: c }).deep_view() == (
        TaskView::RequestConfig { server_cn: a@, token: b@, port: port as int, socket: c@ }),
        (Task::WriteConfig { path: a }).deep_view() == (TaskView::WriteConfig { path: a@ }),
        (Task::StartTunnel { command }).deep_view() == (TaskView::StartTunnel { command: command@ }),
        (Task::QueryLink { attempt }).deep_view() == (TaskView::QueryLink { attempt: attempt as nat }),
        Task::FetchAddress.deep_view() is FetchAddress,
        (Task::Connected { address: a }).deep_view() == (TaskView::Connected { address: a@ }),
        Task::GiveUp.deep_view() is GiveUp,
        Progress::CertificateFetched@ is CertificateFetched,
        Progress::ConfigReceived@ is ConfigReceived,
        (Progress::LinkSeen { query })@ == (ProgressView::LinkSeen { query }),
        (Progress::AddressFetched { address: a })@ == (ProgressView::AddressFetched { address: a@ }),
        Progress::Failed@ is Failed,
{
}

} // verus!
