//! The packet filter that keeps traffic inside the tunnel.
//!
//! A plan is a list of changes to the `filter` table, in the order in which they are made. What a
//! plan does to a packet is modelled below the functions that make the plans, and stated there as
//! laws.

use vstd::prelude::*;

use crate::text;

verus! {

/// The table that every change is made to.
pub const TABLE: &'static str = "filter";

/// The network interface of the tunnel.
pub const TUNNEL: &'static str = "wg0";

/// What becomes of a packet.
#[derive(Debug, Clone, Copy, PartialEq, Eq, Structural)]
pub enum Target {
    Accept,
    Drop,
}

/// A chain of the `filter` table.
#[derive(Debug, Clone, Copy, PartialEq, Eq, Structural)]
pub enum Chain {
    Input,
    Forward,
    Output,
}

/// A rule of a chain. A packet matches it when it has every property that is given.
#[derive(Debug, Clone, PartialEq, Eq)]
pub struct Rule {
    pub source: Option<String>,
    pub destination: Option<String>,
    pub in_interface: Option<String>,
    pub out_interface: Option<String>,
    pub protocol: Option<String>,
    pub control_type: Option<String>,
    pub source_port: Option<String>,
    pub destination_port: Option<String>,
    pub target: Target,
}

/// A rule with its texts as sequences of characters.
pub struct RuleView {
    pub source: Option<Seq<char>>,
    pub destination: Option<Seq<char>>,
    pub in_interface: Option<Seq<char>>,
    pub out_interface: Option<Seq<char>>,
    pub protocol: Option<Seq<char>>,
    pub control_type: Option<Seq<char>>,
    pub source_port: Option<Seq<char>>,
    pub destination_port: Option<Seq<char>>,
    pub target: Target,
}

impl View for Rule {
    type V = RuleView;

    open spec fn view(&self) -> RuleView {
        RuleView {
            source: self.source.deep_view(),
            destination: self.destination.deep_view(),
            in_interface: self.in_interface.deep_view(),
            out_interface: self.out_interface.deep_view(),
            protocol: self.protocol.deep_view(),
            control_type: self.control_type.deep_view(),
            source_port: self.source_port.deep_view(),
            destination_port: self.destination_port.deep_view(),
            target: self.target,
        }
    }
}

/// One change to the `filter` table.
#[derive(Debug, Clone, PartialEq, Eq)]
pub enum Change {
    /// What becomes of packets that no rule of the chain matches.
    Policy { chain: Chain, target: Target },
    /// A rule behind all others of the chain.
    Append { chain: Chain, rule: Rule },
    /// A rule at a position of the chain, counted from 1.
    Insert { chain: Chain, rule: Rule, position: i32 },
}

/// A change with its rule as a `RuleView`.
pub enum ChangeView {
    Policy { chain: Chain, target: Target },
    Append { chain: Chain, rule: RuleView },
    Insert { chain: Chain, rule: RuleView, position: int },
}

impl View for Change {
    type V = ChangeView;

    open spec fn view(&self) -> ChangeView {
        match *self {
            Change::Policy { chain, target } => ChangeView::Policy { chain, target },
            Change::Append { chain, rule } => ChangeView::Append { chain, rule: rule@ },
            Change::Insert { chain, rule, position } => ChangeView::Insert {
                chain,
                rule: rule@,
                position: position as int,
            },
        }
    }
}

impl DeepView for Change {
    type V = ChangeView;

    open spec fn deep_view(&self) -> ChangeView {
        self.view()
    }
}

/// The name of a target on a command line.
pub open spec fn target_name(t: Target) -> Seq<char> {
    match t {
        Target::Accept => "ACCEPT"@,
        Target::Drop => "DROP"@,
    }
}

/// The name of a chain on a command line.
pub open spec fn chain_name(c: Chain) -> Seq<char> {
    match c {
        Chain::Input => "INPUT"@,
        Chain::Forward => "FORWARD"@,
        Chain::Output => "OUTPUT"@,
    }
}

impl Target {
    /// The name of the target on a command line.
    pub fn name(&self) -> (r: &'static str)
        ensures
            r@ == target_name(*self),
    {
        match self {
            Target::Accept => "ACCEPT",
            Target::Drop => "DROP",
        }
    }
}

impl Chain {
    /// The name of the chain on a command line.
    pub fn name(&self) -> (r: &'static str)
        ensures
            r@ == chain_name(*self),
    {
        match self {
            Chain::Input => "INPUT",
            Chain::Forward => "FORWARD",
            Chain::Output => "OUTPUT",
        }
    }
}

/// An option of the command line with its value and a space behind it, where there is a value.
pub open spec fn option_text(flag: Seq<char>, value: Option<Seq<char>>) -> Seq<char> {
    match value {
        Some(v) => flag + v + " "@,
        None => Seq::empty(),
    }
}

/// A rule as it is written on a command line.
pub open spec fn rule_text(r: RuleView) -> Seq<char> {
    option_text("-s "@, r.source) + option_text("-d "@, r.destination) + option_text(
        "-i "@,
        r.in_interface,
    ) + option_text("-o "@, r.out_interface) + option_text("-p "@, r.protocol) + option_text(
        "--icmp-type "@,
        r.control_type,
    ) + option_text("--sport "@, r.source_port) + option_text("--dport "@, r.destination_port)
        + "-j "@ + target_name(r.target)
}

/// An option of the command line and its value, as two words, where there is a value.
pub open spec fn option_words(flag: Seq<char>, value: Option<Seq<char>>) -> Seq<Seq<char>> {
    match value {
        Some(v) => seq![flag, v],
        None => Seq::empty(),
    }
}

/// The words that a rule is made of on a command line.
pub open spec fn rule_words(r: RuleView) -> Seq<Seq<char>> {
    option_words("-s"@, r.source) + (option_words("-d"@, r.destination) + (option_words(
        "-i"@,
        r.in_interface,
    ) + (option_words("-o"@, r.out_interface) + (option_words("-p"@, r.protocol) + (option_words(
        "--icmp-type"@,
        r.control_type,
    ) + (option_words("--sport"@, r.source_port) + (option_words("--dport"@, r.destination_port)
        + seq!["-j"@, target_name(r.target)])))))))
}

/// Whether a value, where there is one, is a single word.
pub open spec fn one_word(value: Option<Seq<char>>) -> bool {
    value is Some ==> !value->0.contains(' ')
}

/// Whether every value of a rule is a single word.
pub open spec fn of_single_words(r: RuleView) -> bool {
    &&& one_word(r.source)
    &&& one_word(r.destination)
    &&& one_word(r.in_interface)
    &&& one_word(r.out_interface)
    &&& one_word(r.protocol)
    &&& one_word(r.control_type)
    &&& one_word(r.source_port)
    &&& one_word(r.destination_port)
}

proof fn lemma_option_words(
    word: Seq<char>,
    flag: Seq<char>,
    value: Option<Seq<char>>,
    rest: Seq<char>,
)
    requires
        flag == word.push(' '),
        !word.contains(' '),
        one_word(value),
    ensures
        text::pieces(option_text(flag, value) + rest, ' ') == option_words(word, value)
            + text::pieces(rest, ' '),
{
    match value {
        Some(v) => {
            reveal_strlit(" ");
            assert(option_text(flag, value) + rest =~= word.push(' ') + (v.push(' ') + rest));
            text::law_pieces_of_two_texts(word, v.push(' ') + rest, ' ');
            text::law_pieces_of_two_texts(v, rest, ' ');
            text::law_a_text_without_separator_is_one_piece(word, ' ');
            text::law_a_text_without_separator_is_one_piece(v, ' ');
            assert(seq![word] + (seq![v] + text::pieces(rest, ' ')) =~= option_words(word, value)
                + text::pieces(rest, ' '));
        },
        None => {
            assert(option_text(flag, value) + rest =~= rest);
            assert(option_words(word, value) + text::pieces(rest, ' ') =~= text::pieces(rest, ' '));
        },
    }
}

proof fn lemma_flags_are_words()
    ensures
        "-s "@ == "-s"@.push(' '),
        !"-s"@.contains(' '),
        "-d "@ == "-d"@.push(' '),
        !"-d"@.contains(' '),
        "-i "@ == "-i"@.push(' '),
        !"-i"@.contains(' '),
        "-o "@ == "-o"@.push(' '),
        !"-o"@.contains(' '),
        "-p "@ == "-p"@.push(' '),
        !"-p"@.contains(' '),
        "--icmp-type "@ == "--icmp-type"@.push(' '),
        !"--icmp-type"@.contains(' '),
        "--sport "@ == "--sport"@.push(' '),
        !"--sport"@.contains(' '),
        "--dport "@ == "--dport"@.push(' '),
        !"--dport"@.contains(' '),
        "-j "@ == "-j"@.push(' '),
        !"-j"@.contains(' '),
        !"ACCEPT"@.contains(' '),
        !"DROP"@.contains(' '),
{
    assert("-s "@ == "-s"@.push(' ') && !"-s"@.contains(' ')) by {
        reveal_strlit("-s");
        reveal_strlit("-s ");
        assert("-s "@ =~= "-s"@.push(' '));
    }
    assert("-d "@ == "-d"@.push(' ') && !"-d"@.contains(' ')) by {
        reveal_strlit("-d");
        reveal_strlit("-d ");
        assert("-d "@ =~= "-d"@.push(' '));
    }
    assert("-i "@ == "-i"@.push(' ') && !"-i"@.contains(' ')) by {
        reveal_strlit("-i");
        reveal_strlit("-i ");
        assert("-i "@ =~= "-i"@.push(' '));
    }
    assert("-o "@ == "-o"@.push(' ') && !"-o"@.contains(' ')) by {
        reveal_strlit("-o");
        reveal_strlit("-o ");
        assert("-o "@ =~= "-o"@.push(' '));
    }
    assert("-p "@ == "-p"@.push(' ') && !"-p"@.contains(' ')) by {
        reveal_strlit("-p");
        reveal_strlit("-p ");
        assert("-p "@ =~= "-p"@.push(' '));
    }
    assert("--icmp-type "@ == "--icmp-type"@.push(' ') && !"--icmp-type"@.contains(' ')) by {
        reveal_strlit("--icmp-type");
        reveal_strlit("--icmp-type ");
        assert("--icmp-type "@ =~= "--icmp-type"@.push(' '));
    }
    assert("--sport "@ == "--sport"@.push(' ') && !"--sport"@.contains(' ')) by {
        reveal_strlit("--sport");
        reveal_strlit("--sport ");
        assert("--sport "@ =~= "--sport"@.push(' '));
    }
    assert("--dport "@ == "--dport"@.push(' ') && !"--dport"@.contains(' ')) by {
        reveal_strlit("--dport");
        reveal_strlit("--dport ");
        assert("--dport "@ =~= "--dport"@.push(' '));
    }
    assert("-j "@ == "-j"@.push(' ') && !"-j"@.contains(' ')) by {
        reveal_strlit("-j");
        reveal_strlit("-j ");
        assert("-j "@ =~= "-j"@.push(' '));
    }
    assert(!"ACCEPT"@.contains(' ')) by {
        reveal_strlit("ACCEPT");
    }
    assert(!"DROP"@.contains(' ')) by {
        reveal_strlit("DROP");
    }
}

proof fn lemma_sum_regroups(a: Seq<char>, b: Seq<char>, c: Seq<char>)
    ensures
        (a + b) + c == a + (b + c),
{
    assert((a + b) + c =~= a + (b + c));
}

/// A rule whose values are single words, split at the spaces of its text, gives its options and
/// values in order: no value runs into an option.
pub proof fn law_rule_text_gives_its_words(r: RuleView)
    requires
        of_single_words(r),
    ensures
        text::pieces(rule_text(r), ' ') == rule_words(r),
{
    let source = option_text("-s "@, r.source);
    let destination = option_text("-d "@, r.destination);
    let arrival = option_text("-i "@, r.in_interface);
    let departure = option_text("-o "@, r.out_interface);
    let protocol = option_text("-p "@, r.protocol);
    let control = option_text("--icmp-type "@, r.control_type);
    let sport = option_text("--sport "@, r.source_port);
    let dport = option_text("--dport "@, r.destination_port);
    let end = "-j "@ + target_name(r.target);
    let from_dport = dport + end;
    let from_sport = sport + from_dport;
    let from_control = control + from_sport;
    let from_protocol = protocol + from_control;
    let from_departure = departure + from_protocol;
    let from_arrival = arrival + from_departure;
    let from_destination = destination + from_arrival;
    assert(rule_text(r) == source + from_destination) by {
        let two = source + destination;
        let three = two + arrival;
        let four = three + departure;
        let five = four + protocol;
        let six = five + control;
        let seven = six + sport;
        lemma_sum_regroups(seven + dport, "-j "@, target_name(r.target));
        lemma_sum_regroups(seven, dport, end);
        lemma_sum_regroups(six, sport, from_dport);
        lemma_sum_regroups(five, control, from_sport);
        lemma_sum_regroups(four, protocol, from_control);
        lemma_sum_regroups(three, departure, from_protocol);
        lemma_sum_regroups(two, arrival, from_departure);
        lemma_sum_regroups(source, destination, from_arrival);
    }
    lemma_flags_are_words();
    lemma_option_words("-s"@, "-s "@, r.source, from_destination);
    lemma_option_words("-d"@, "-d "@, r.destination, from_arrival);
    lemma_option_words("-i"@, "-i "@, r.in_interface, from_departure);
    lemma_option_words("-o"@, "-o "@, r.out_interface, from_protocol);
    lemma_option_words("-p"@, "-p "@, r.protocol, from_control);
    lemma_option_words("--icmp-type"@, "--icmp-type "@, r.control_type, from_sport);
    lemma_option_words("--sport"@, "--sport "@, r.source_port, from_dport);
    lemma_option_words("--dport"@, "--dport "@, r.destination_port, end);
    text::law_pieces_of_two_texts("-j"@, target_name(r.target), ' ');
    text::law_a_text_without_separator_is_one_piece("-j"@, ' ');
    text::law_a_text_without_separator_is_one_piece(target_name(r.target), ' ');
    assert(seq!["-j"@] + seq![target_name(r.target)] =~= seq!["-j"@, target_name(r.target)]);
}

fn write_option(flag: &str, value: &Option<String>) -> (r: String)
    ensures
        r@ == option_text(flag@, value.deep_view()),
{
    match value {
        Some(v) => flag.to_owned().concat(v.as_str()).concat(" "),
        None => String::new(),
    }
}

impl Rule {
    /// The rule as it is written on a command line.
    pub fn text(&self) -> (r: String)
        ensures
            r@ == rule_text(self@),
    {
        write_option("-s ", &self.source).concat(
            write_option("-d ", &self.destination).as_str(),
        ).concat(write_option("-i ", &self.in_interface).as_str()).concat(
            write_option("-o ", &self.out_interface).as_str(),
        ).concat(write_option("-p ", &self.protocol).as_str()).concat(
            write_option("--icmp-type ", &self.control_type).as_str(),
        ).concat(write_option("--sport ", &self.source_port).as_str()).concat(
            write_option("--dport ", &self.destination_port).as_str(),
        ).concat("-j ").concat(self.target.name())
    }
}

/// A rule that every packet matches.
pub open spec fn every_packet(target: Target) -> RuleView {
    RuleView {
        source: None,
        destination: None,
        in_interface: None,
        out_interface: None,
        protocol: None,
        control_type: None,
        source_port: None,
        destination_port: None,
        target,
    }
}

/// The rules for arriving packets: what comes through the tunnel over UDP and TCP, what stays in
/// the local network, the server's side of the tunnel, the answers to echo requests, and the
/// loopback interface.
pub open spec fn input_rules(network: Seq<char>, interface: Seq<char>, port: int) -> Seq<RuleView> {
    let any = every_packet(Target::Accept);
    seq![
        RuleView { in_interface: Some(TUNNEL@), protocol: Some("udp"@), ..any },
        RuleView { in_interface: Some(TUNNEL@), protocol: Some("tcp"@), ..any },
        RuleView { source: Some(network), destination: Some(network), ..any },
        RuleView {
            in_interface: Some(interface),
            protocol: Some("udp"@),
            source_port: Some(text::decimal(port)),
            ..any
        },
        RuleView { protocol: Some("icmp"@), control_type: Some("echo-reply"@), ..any },
        RuleView { in_interface: Some("lo"@), ..any },
    ]
}

/// The rules for departing packets, the counterpart of `input_rules`.
pub open spec fn output_rules(
    network: Seq<char>,
    interface: Seq<char>,
    port: int,
) -> Seq<RuleView> {
    let any = every_packet(Target::Accept);
    seq![
        RuleView { out_interface: Some(TUNNEL@), protocol: Some("udp"@), ..any },
        RuleView { out_interface: Some(TUNNEL@), protocol: Some("tcp"@), ..any },
        RuleView { source: Some(network), destination: Some(network), ..any },
        RuleView {
            out_interface: Some(interface),
            protocol: Some("udp"@),
            destination_port: Some(text::decimal(port)),
            ..any
        },
        RuleView { protocol: Some("icmp"@), control_type: Some("echo-request"@), ..any },
        RuleView { out_interface: Some("lo"@), ..any },
    ]
}

/// The changes that append `rules` to a chain, one by one.
pub open spec fn appended(chain: Chain, rules: Seq<RuleView>) -> Seq<ChangeView> {
    rules.map_values(|rule: RuleView| ChangeView::Append { chain, rule })
}

/// The plan that closes the network but for the tunnel.
pub open spec fn closing_changes(
    network: Seq<char>,
    interface: Seq<char>,
    port: int,
) -> Seq<ChangeView> {
    seq![
        ChangeView::Policy { chain: Chain::Forward, target: Target::Drop },
        ChangeView::Policy { chain: Chain::Input, target: Target::Drop },
    ] + appended(Chain::Input, input_rules(network, interface, port)) + seq![
        ChangeView::Policy { chain: Chain::Output, target: Target::Drop },
    ] + appended(Chain::Output, output_rules(network, interface, port))
}

fn accept_all() -> (r: Rule)
    ensures
        r@ == every_packet(Target::Accept),
{
    Rule {
        source: None,
        destination: None,
        in_interface: None,
        out_interface: None,
        protocol: None,
        control_type: None,
        source_port: None,
        destination_port: None,
        target: Target::Accept,
    }
}

fn some_text(s: &str) -> (r: Option<String>)
    ensures
        r.deep_view() == Some(s@),
{
    Some(s.to_owned())
}

fn make_input_rules(network: &str, interface: &str, port: i32) -> (r: Vec<Rule>)
    ensures
        r@.map_values(|rule: Rule| rule@) == input_rules(network@, interface@, port as int),
{
    let mut r: Vec<Rule> = Vec::new();
    r.push(
        Rule { in_interface: some_text(TUNNEL), protocol: some_text("udp"), ..accept_all() },
    );
    r.push(
        Rule { in_interface: some_text(TUNNEL), protocol: some_text("tcp"), ..accept_all() },
    );
    r.push(
        Rule { source: some_text(network), destination: some_text(network), ..accept_all() },
    );
    r.push(
        Rule {
            in_interface: some_text(interface),
            protocol: some_text("udp"),
            source_port: Some(text::write_decimal(port)),
            ..accept_all()
        },
    );
    r.push(
        Rule { protocol: some_text("icmp"), control_type: some_text("echo-reply"), ..accept_all() },
    );
    r.push(Rule { in_interface: some_text("lo"), ..accept_all() });
    r
}

fn make_output_rules(network: &str, interface: &str, port: i32) -> (r: Vec<Rule>)
    ensures
        r@.map_values(|rule: Rule| rule@) == output_rules(network@, interface@, port as int),
{
    let mut r: Vec<Rule> = Vec::new();
    r.push(
        Rule { out_interface: some_text(TUNNEL), protocol: some_text("udp"), ..accept_all() },
    );
    r.push(
        Rule { out_interface: some_text(TUNNEL), protocol: some_text("tcp"), ..accept_all() },
    );
    r.push(
        Rule { source: some_text(network), destination: some_text(network), ..accept_all() },
    );
    r.push(
        Rule {
            out_interface: some_text(interface),
            protocol: some_text("udp"),
            destination_port: Some(text::write_decimal(port)),
            ..accept_all()
        },
    );
    r.push(
        Rule { protocol: some_text("icmp"), control_type: some_text("echo-request"), ..accept_all() },
    );
    r.push(Rule { out_interface: some_text("lo"), ..accept_all() });
    r
}

/// Appends to `plan` the changes that append `rules` to a chain.
fn append_rules(plan: &mut Vec<Change>, chain: Chain, rules: Vec<Rule>)
    ensures
        final(plan).deep_view() == old(plan).deep_view() + appended(
            chain,
            rules@.map_values(|rule: Rule| rule@),
        ),
{
    let ghost views = rules@.map_values(|rule: Rule| rule@);
    let ghost before = plan.deep_view();
    assert(plan.deep_view() =~= before + appended(chain, views.take(0)));
    for rule in it: rules
        invariant
            it.seq() == rules@,
            views == rules@.map_values(|rule: Rule| rule@),
            plan.deep_view() == before + appended(chain, views.take(it.index() as int)),
    {
        let ghost i: int = it.index() as int;
        let ghost so_far = plan.deep_view();
        plan.push(Change::Append { chain, rule });
        assert(plan.deep_view() =~= so_far.push(ChangeView::Append { chain, rule: views[i] }));
        assert(appended(chain, views.take(i + 1)) =~= appended(chain, views.take(i)).push(
            ChangeView::Append { chain, rule: views[i] },
        ));
    }
    assert(views.take(views.len() as int) =~= views);
}

/// The plan that closes the network but for the tunnel: `network` is the local network,
/// `interface` the interface that leads out of the container, `port` the port of the server's
/// side of the tunnel.
pub fn close_network(network: &str, interface: &str, port: i32) -> (r: Vec<Change>)
    ensures
        r.deep_view() == closing_changes(network@, interface@, port as int),
{
    let mut plan: Vec<Change> = Vec::new();
    plan.push(Change::Policy { chain: Chain::Forward, target: Target::Drop });
    plan.push(Change::Policy { chain: Chain::Input, target: Target::Drop });
    assert(plan.deep_view() =~= seq![
        ChangeView::Policy { chain: Chain::Forward, target: Target::Drop },
        ChangeView::Policy { chain: Chain::Input, target: Target::Drop },
    ]);
    append_rules(&mut plan, Chain::Input, make_input_rules(network, interface, port));
    let ghost half = plan.deep_view();
    plan.push(Change::Policy { chain: Chain::Output, target: Target::Drop });
    assert(plan.deep_view() =~= half + seq![
        ChangeView::Policy { chain: Chain::Output, target: Target::Drop },
    ]);
    append_rules(&mut plan, Chain::Output, make_output_rules(network, interface, port));
    plan
}

/// A port whose traffic avoids the tunnel.
#[derive(Debug, Clone, PartialEq, Eq)]
pub struct BypassPort {
    pub port: String,
    pub protocol: String,
}

/// A `BypassPort` with its texts as sequences of characters.
pub struct BypassView {
    pub port: Seq<char>,
    pub protocol: Seq<char>,
}

impl View for BypassPort {
    type V = BypassView;

    open spec fn view(&self) -> BypassView {
        BypassView { port: self.port@, protocol: self.protocol@ }
    }
}

/// The port that an entry of the list names: the port, a slash, the protocol.
pub open spec fn bypass_port(entry: Seq<char>) -> Option<BypassView> {
    match text::halves(entry, '/') {
        Some((port, protocol)) => Some(BypassView { port, protocol }),
        None => None,
    }
}

/// Arriving packets for the port, through the tunnel.
pub open spec fn input_block(b: BypassView) -> RuleView {
    RuleView {
        in_interface: Some(TUNNEL@),
        protocol: Some(b.protocol),
        destination_port: Some(b.port),
        ..every_packet(Target::Drop)
    }
}

/// Arriving packets for the port, past the tunnel.
pub open spec fn input_pass(b: BypassView, interface: Seq<char>) -> RuleView {
    RuleView {
        in_interface: Some(interface),
        protocol: Some(b.protocol),
        destination_port: Some(b.port),
        ..every_packet(Target::Accept)
    }
}

/// Departing packets from the port, through the tunnel.
pub open spec fn output_block(b: BypassView) -> RuleView {
    RuleView {
        out_interface: Some(TUNNEL@),
        protocol: Some(b.protocol),
        source_port: Some(b.port),
        ..every_packet(Target::Drop)
    }
}

/// Departing packets from the port, past the tunnel.
pub open spec fn output_pass(b: BypassView, interface: Seq<char>) -> RuleView {
    RuleView {
        out_interface: Some(interface),
        protocol: Some(b.protocol),
        source_port: Some(b.port),
        ..every_packet(Target::Accept)
    }
}

/// The changes that lead the traffic of one port past the tunnel.
pub open spec fn port_changes(b: BypassView, interface: Seq<char>) -> Seq<ChangeView> {
    seq![
        ChangeView::Insert { chain: Chain::Input, rule: input_block(b), position: 1 },
        ChangeView::Append { chain: Chain::Input, rule: input_pass(b, interface) },
        ChangeView::Insert { chain: Chain::Output, rule: output_block(b), position: 1 },
        ChangeView::Append { chain: Chain::Output, rule: output_pass(b, interface) },
    ]
}

/// The changes for several ports, one port after the other.
pub open spec fn bypass_changes(ports: Seq<BypassView>, interface: Seq<char>) -> Seq<ChangeView>
    decreases ports.len(),
{
    if ports.len() == 0 {
        Seq::empty()
    } else {
        bypass_changes(ports.drop_last(), interface) + port_changes(ports.last(), interface)
    }
}

/// The ports that the entries name, up to the first entry that names none.
pub open spec fn leading_ports(entries: Seq<Seq<char>>) -> Seq<BypassView>
    decreases entries.len(),
{
    if entries.len() == 0 {
        Seq::empty()
    } else {
        match bypass_port(entries.first()) {
            Some(b) => seq![b] + leading_ports(entries.drop_first()),
            None => Seq::empty(),
        }
    }
}

/// The plan for a list of ports.
#[derive(Debug, Clone, PartialEq, Eq)]
pub struct BypassPlan {
    /// The changes for the entries before the first one that names no port.
    pub changes: Vec<Change>,
    /// The first entry that names no port, where there is one.
    pub rejected: Option<String>,
}

/// Reads one entry of the list.
pub fn parse_bypass_port(entry: &str) -> (r: Option<BypassPort>)
    ensures
        match r {
            Some(b) => bypass_port(entry@) == Some(b@),
            None => bypass_port(entry@) is None,
        },
{
    match text::split_once(entry, '/') {
        Some((port, protocol)) => Some(BypassPort { port, protocol }),
        None => None,
    }
}

fn drop_all() -> (r: Rule)
    ensures
        r@ == every_packet(Target::Drop),
{
    Rule { target: Target::Drop, ..accept_all() }
}

fn push_port_changes(plan: &mut Vec<Change>, b: &BypassPort, interface: &str)
    ensures
        final(plan).deep_view() == old(plan).deep_view() + port_changes(b@, interface@),
{
    let ghost before = plan.deep_view();
    let input_block: Rule = Rule {
        in_interface: some_text(TUNNEL),
        protocol: some_text(b.protocol.as_str()),
        destination_port: some_text(b.port.as_str()),
        ..drop_all()
    };
    let input_pass: Rule = Rule {
        in_interface: some_text(interface),
        protocol: some_text(b.protocol.as_str()),
        destination_port: some_text(b.port.as_str()),
        ..accept_all()
    };
    let output_block: Rule = Rule {
        out_interface: some_text(TUNNEL),
        protocol: some_text(b.protocol.as_str()),
        source_port: some_text(b.port.as_str()),
        ..drop_all()
    };
    let output_pass: Rule = Rule {
        out_interface: some_text(interface),
        protocol: some_text(b.protocol.as_str()),
        source_port: some_text(b.port.as_str()),
        ..accept_all()
    };
    plan.push(Change::Insert { chain: Chain::Input, rule: input_block, position: 1 });
    plan.push(Change::Append { chain: Chain::Input, rule: input_pass });
    plan.push(Change::Insert { chain: Chain::Output, rule: output_block, position: 1 });
    plan.push(Change::Append { chain: Chain::Output, rule: output_pass });
    assert(plan.deep_view() =~= before + port_changes(b@, interface@));
}

proof fn lemma_leading_ports_all(entries: Seq<Seq<char>>, ports: Seq<BypassView>, n: int)
    requires
        0 <= n <= entries.len(),
        ports.len() == n,
        forall|j: int| 0 <= j < n ==> bypass_port(#[trigger] entries[j]) == Some(ports[j]),
        n < entries.len() ==> bypass_port(entries[n]) is None,
    ensures
        leading_ports(entries) == ports,
    decreases n,
{
    if n == 0 {
        assert(ports =~= Seq::empty());
    } else {
        assert(bypass_port(entries[0]) == Some(ports[0]));
        assert forall|j: int| 0 <= j < n - 1 implies bypass_port(
            #[trigger] entries.drop_first()[j],
        ) == Some(ports.drop_first()[j]) by {
            assert(entries.drop_first()[j] == entries[j + 1]);
        }
        lemma_leading_ports_all(entries.drop_first(), ports.drop_first(), n - 1);
        assert(seq![ports[0]] + ports.drop_first() =~= ports);
    }
}

/// The plan that leads the traffic of the listed ports past the tunnel. The list has commas
/// between its entries. `interface` is the interface that leads out of the container.
pub fn bypass_ports(list: &str, interface: &str) -> (r: BypassPlan)
    ensures
        ({
            let entries = text::pieces(list@, ',');
            let ports = leading_ports(entries);
            &&& r.changes.deep_view() == bypass_changes(ports, interface@)
            &&& r.rejected.deep_view() == (if ports.len() < entries.len() {
                Some(entries[ports.len() as int])
            } else {
                None
            })
        }),
{
    let entries: Vec<String> = text::split(list, ',');
    let ghost names = text::pieces(list@, ',');
    let ghost mut ports: Seq<BypassView> = Seq::empty();
    let mut changes: Vec<Change> = Vec::new();
    let mut i: usize = 0;
    assert(changes.deep_view() =~= bypass_changes(ports, interface@));
    while i < entries.len()
        invariant
            entries.deep_view() == names,
            names == text::pieces(list@, ','),
            i <= entries@.len(),
            ports.len() == i,
            forall|j: int| 0 <= j < i ==> bypass_port(#[trigger] names[j]) == Some(ports[j]),
            changes.deep_view() == bypass_changes(ports, interface@),
        decreases entries.len() - i,
    {
        assert(names[i as int] == entries@[i as int]@);
        match parse_bypass_port(entries[i].as_str()) {
            Some(b) => {
                push_port_changes(&mut changes, &b, interface);
                proof {
                    assert(ports.push(b@).drop_last() =~= ports);
                    ports = ports.push(b@);
                }
            },
            None => {
                proof {
                    lemma_leading_ports_all(names, ports, i as int);
                }
                return BypassPlan { changes, rejected: Some(entries[i].clone()) };
            },
        }
        i = i + 1;
    }
    proof {
        lemma_leading_ports_all(names, ports, i as int);
    }
    BypassPlan { changes, rejected: None }
}

/// The ports that a list names, where there is a list.
pub open spec fn listed_ports(list: Option<Seq<char>>) -> Seq<BypassView> {
    match list {
        Some(l) => leading_ports(text::pieces(l, ',')),
        None => Seq::empty(),
    }
}

/// The first entry of a list that names no port, where there is one.
pub open spec fn rejected_entry(list: Option<Seq<char>>) -> Option<Seq<char>> {
    match list {
        Some(l) => {
            let entries = text::pieces(l, ',');
            let ports = leading_ports(entries);
            if ports.len() < entries.len() {
                Some(entries[ports.len() as int])
            } else {
                None
            }
        },
        None => None,
    }
}

/// The plan that closes the network but for the tunnel, and leads the ports past it.
pub open spec fn guard_changes(
    network: Seq<char>,
    interface: Seq<char>,
    port: int,
    ports: Seq<BypassView>,
) -> Seq<ChangeView> {
    closing_changes(network, interface, port) + bypass_changes(ports, interface)
}

/// The whole plan: the network is closed but for the tunnel, and then the ports of the list, where
/// there is one, are led past it.
pub fn guard_network(network: &str, interface: &str, port: i32, bypass: Option<&str>) -> (r:
    BypassPlan)
    ensures
        r.changes.deep_view() == guard_changes(
            network@,
            interface@,
            port as int,
            listed_ports(bypass.deep_view()),
        ),
        r.rejected.deep_view() == rejected_entry(bypass.deep_view()),
{
    let mut changes: Vec<Change> = close_network(network, interface, port);
    let ghost closing = changes.deep_view();
    match bypass {
        Some(list) => {
            let BypassPlan { changes: mut more, rejected } = bypass_ports(list, interface);
            let ghost bypassing = more.deep_view();
            changes.append(&mut more);
            assert(changes.deep_view() =~= closing + bypassing);
            BypassPlan { changes, rejected }
        },
        None => {
            assert(closing + bypass_changes(Seq::empty(), interface@) =~= closing);
            BypassPlan { changes, rejected: None }
        },
    }
}

// What a plan does to packets.

/// A packet, as far as rules can ask about it. Each property takes the text that stands in a rule
/// and says whether the packet meets it.
pub struct Packet {
    pub sent_from: spec_fn(Seq<char>) -> bool,
    pub sent_to: spec_fn(Seq<char>) -> bool,
    pub arrives_on: spec_fn(Seq<char>) -> bool,
    pub leaves_on: spec_fn(Seq<char>) -> bool,
    pub carries: spec_fn(Seq<char>) -> bool,
    pub signals: spec_fn(Seq<char>) -> bool,
    pub sent_from_port: spec_fn(Seq<char>) -> bool,
    pub sent_to_port: spec_fn(Seq<char>) -> bool,
}

/// Whether a property holds, where a rule asks for it.
pub open spec fn meets(asked: Option<Seq<char>>, property: spec_fn(Seq<char>) -> bool) -> bool {
    match asked {
        Some(value) => property(value),
        None => true,
    }
}

/// Whether the packet has every property that the rule asks for.
pub open spec fn matches_rule(r: RuleView, p: Packet) -> bool {
    &&& meets(r.source, p.sent_from)
    &&& meets(r.destination, p.sent_to)
    &&& meets(r.in_interface, p.arrives_on)
    &&& meets(r.out_interface, p.leaves_on)
    &&& meets(r.protocol, p.carries)
    &&& meets(r.control_type, p.signals)
    &&& meets(r.source_port, p.sent_from_port)
    &&& meets(r.destination_port, p.sent_to_port)
}

/// The rules of a chain, and what becomes of packets that none of them matches.
pub struct ChainState {
    pub policy: Target,
    pub rules: Seq<RuleView>,
}

/// The `filter` table.
pub struct Filter {
    pub input: ChainState,
    pub forward: ChainState,
    pub output: ChainState,
}

/// What the first rule that matches the packet makes of it.
pub open spec fn settled(rules: Seq<RuleView>, p: Packet) -> Option<Target>
    decreases rules.len(),
{
    if rules.len() == 0 {
        None
    } else if matches_rule(rules.first(), p) {
        Some(rules.first().target)
    } else {
        settled(rules.drop_first(), p)
    }
}

/// What a chain makes of a packet.
pub open spec fn verdict(c: ChainState, p: Packet) -> Target {
    match settled(c.rules, p) {
        Some(t) => t,
        None => c.policy,
    }
}

/// The chain of a table.
pub open spec fn chain_of(f: Filter, chain: Chain) -> ChainState {
    match chain {
        Chain::Input => f.input,
        Chain::Forward => f.forward,
        Chain::Output => f.output,
    }
}

/// The table with one chain replaced.
pub open spec fn with_chain(f: Filter, chain: Chain, c: ChainState) -> Filter {
    match chain {
        Chain::Input => Filter { input: c, ..f },
        Chain::Forward => Filter { forward: c, ..f },
        Chain::Output => Filter { output: c, ..f },
    }
}

/// The table after a change.
pub open spec fn changed(f: Filter, change: ChangeView) -> Filter {
    match change {
        ChangeView::Policy { chain, target } => with_chain(
            f,
            chain,
            ChainState { policy: target, ..chain_of(f, chain) },
        ),
        ChangeView::Append { chain, rule } => {
            let c = chain_of(f, chain);
            with_chain(f, chain, ChainState { rules: c.rules.push(rule), ..c })
        },
        ChangeView::Insert { chain, rule, position } => {
            let c = chain_of(f, chain);
            with_chain(f, chain, ChainState { rules: c.rules.insert(position - 1, rule), ..c })
        },
    }
}

/// The table after a plan.
pub open spec fn after(f: Filter, plan: Seq<ChangeView>) -> Filter
    decreases plan.len(),
{
    if plan.len() == 0 {
        f
    } else {
        changed(after(f, plan.drop_last()), plan.last())
    }
}

proof fn lemma_after_sum(f: Filter, a: Seq<ChangeView>, b: Seq<ChangeView>)
    ensures
        after(f, a + b) == after(after(f, a), b),
    decreases b.len(),
{
    if b.len() == 0 {
        assert(a + b =~= a);
    } else {
        assert((a + b).drop_last() =~= a + b.drop_last());
        lemma_after_sum(f, a, b.drop_last());
    }
}

proof fn lemma_after_appended(f: Filter, chain: Chain, rules: Seq<RuleView>)
    ensures
        after(f, appended(chain, rules)) == with_chain(
            f,
            chain,
            ChainState { rules: chain_of(f, chain).rules + rules, ..chain_of(f, chain) },
        ),
    decreases rules.len(),
{
    let c = chain_of(f, chain);
    if rules.len() == 0 {
        assert(appended(chain, rules) =~= Seq::empty());
        assert(c.rules + rules =~= c.rules);
    } else {
        assert(appended(chain, rules).drop_last() =~= appended(chain, rules.drop_last()));
        lemma_after_appended(f, chain, rules.drop_last());
        assert((c.rules + rules.drop_last()).push(rules.last()) =~= c.rules + rules);
    }
}

proof fn lemma_settled_sum(a: Seq<RuleView>, b: Seq<RuleView>, p: Packet)
    ensures
        settled(a + b, p) == (match settled(a, p) {
            Some(t) => Some(t),
            None => settled(b, p),
        }),
    decreases a.len(),
{
    if a.len() == 0 {
        assert(a + b =~= b);
    } else {
        assert((a + b).drop_first() =~= a.drop_first() + b);
        lemma_settled_sum(a.drop_first(), b, p);
    }
}

/// Rules that share a target settle a packet exactly when one of them matches.
proof fn lemma_settled_uniform(rules: Seq<RuleView>, t: Target, p: Packet)
    requires
        forall|i: int| 0 <= i < rules.len() ==> (#[trigger] rules[i]).target == t,
    ensures
        settled(rules, p) == (if exists|i: int|
            0 <= i < rules.len() && matches_rule(#[trigger] rules[i], p) {
            Some(t)
        } else {
            None
        }),
    decreases rules.len(),
{
    if rules.len() > 0 {
        let rest = rules.drop_first();
        assert forall|i: int| 0 <= i < rest.len() implies (#[trigger] rest[i]).target == t by {
            assert(rest[i] == rules[i + 1]);
        }
        lemma_settled_uniform(rest, t, p);
        if matches_rule(rules.first(), p) {
            assert(matches_rule(rules[0], p));
        } else {
            if exists|i: int| 0 <= i < rest.len() && matches_rule(#[trigger] rest[i], p) {
                let i = choose|i: int| 0 <= i < rest.len() && matches_rule(#[trigger] rest[i], p);
                assert(matches_rule(rules[i + 1], p));
            }
            if exists|i: int| 0 <= i < rules.len() && matches_rule(#[trigger] rules[i], p) {
                let i = choose|i: int|
                    0 <= i < rules.len() && matches_rule(#[trigger] rules[i], p);
                assert(matches_rule(rest[i - 1], p));
            }
        }
    }
}

/// The table after the plan of `close_network`.
proof fn lemma_after_closing(f: Filter, network: Seq<char>, interface: Seq<char>, port: int)
    ensures
        after(f, closing_changes(network, interface, port)) == (Filter {
            input: ChainState {
                policy: Target::Drop,
                rules: f.input.rules + input_rules(network, interface, port),
            },
            forward: ChainState { policy: Target::Drop, rules: f.forward.rules },
            output: ChainState {
                policy: Target::Drop,
                rules: f.output.rules + output_rules(network, interface, port),
            },
        }),
{
    let policies = seq![
        ChangeView::Policy { chain: Chain::Forward, target: Target::Drop },
        ChangeView::Policy { chain: Chain::Input, target: Target::Drop },
    ];
    let ins = appended(Chain::Input, input_rules(network, interface, port));
    let policy = seq![ChangeView::Policy { chain: Chain::Output, target: Target::Drop }];
    let outs = appended(Chain::Output, output_rules(network, interface, port));
    lemma_after_sum(f, policies + ins + policy, outs);
    lemma_after_sum(f, policies + ins, policy);
    lemma_after_sum(f, policies, ins);
    reveal_with_fuel(after, 3);
    assert(policies.drop_last() =~= seq![policies[0]]);
    assert(policies.drop_last().drop_last() =~= Seq::empty());
    assert(policy.drop_last() =~= Seq::empty());
    let f1 = after(f, policies);
    lemma_after_appended(f1, Chain::Input, input_rules(network, interface, port));
    let f2 = after(after(f1, ins), policy);
    lemma_after_appended(f2, Chain::Output, output_rules(network, interface, port));
}

/// The rules that the ports put in front of a chain, the last port first.
pub open spec fn blocks(ports: Seq<BypassView>, rule: spec_fn(BypassView) -> RuleView) -> Seq<
    RuleView,
>
    decreases ports.len(),
{
    if ports.len() == 0 {
        Seq::empty()
    } else {
        seq![rule(ports.last())] + blocks(ports.drop_last(), rule)
    }
}

proof fn lemma_blocks(ports: Seq<BypassView>, rule: spec_fn(BypassView) -> RuleView)
    ensures
        blocks(ports, rule).len() == ports.len(),
        forall|i: int|
            0 <= i < ports.len() ==> #[trigger] blocks(ports, rule)[i] == rule(
                ports[ports.len() - 1 - i],
            ),
    decreases ports.len(),
{
    if ports.len() > 0 {
        lemma_blocks(ports.drop_last(), rule);
    }
}

/// The table after the changes for one port.
proof fn lemma_after_port(f: Filter, b: BypassView, interface: Seq<char>)
    ensures
        after(f, port_changes(b, interface)) == (Filter {
            input: ChainState {
                rules: seq![input_block(b)] + f.input.rules + seq![input_pass(b, interface)],
                ..f.input
            },
            forward: f.forward,
            output: ChainState {
                rules: seq![output_block(b)] + f.output.rules + seq![output_pass(b, interface)],
                ..f.output
            },
        }),
{
    let steps = port_changes(b, interface);
    reveal_with_fuel(after, 5);
    assert(steps.drop_last().drop_last().drop_last().drop_last() =~= Seq::empty());
    let f1 = changed(f, steps[0]);
    let f2 = changed(f1, steps[1]);
    let f3 = changed(f2, steps[2]);
    let f4 = changed(f3, steps[3]);
    assert(after(f, steps) == f4);
    assert(f4.input.rules =~= seq![input_block(b)] + f.input.rules + seq![
        input_pass(b, interface),
    ]);
    assert(f4.output.rules =~= seq![output_block(b)] + f.output.rules + seq![
        output_pass(b, interface),
    ]);
}

/// A rule more in front and one more behind, for one port more.
proof fn lemma_one_port_more(
    ports: Seq<BypassView>,
    block: spec_fn(BypassView) -> RuleView,
    pass: spec_fn(BypassView) -> RuleView,
    rules: Seq<RuleView>,
)
    requires
        ports.len() > 0,
    ensures
        seq![block(ports.last())] + (blocks(ports.drop_last(), block) + rules
            + ports.drop_last().map_values(pass)) + seq![pass(ports.last())] == blocks(ports, block)
            + rules + ports.map_values(pass),
{
    assert(ports.map_values(pass) =~= ports.drop_last().map_values(pass) + seq![
        pass(ports.last()),
    ]);
    assert(seq![block(ports.last())] + (blocks(ports.drop_last(), block) + rules
        + ports.drop_last().map_values(pass)) + seq![pass(ports.last())] =~= blocks(ports, block)
        + rules + ports.map_values(pass));
}

/// The table after the plan of `bypass_ports`.
proof fn lemma_after_bypass(f: Filter, ports: Seq<BypassView>, interface: Seq<char>)
    ensures
        after(f, bypass_changes(ports, interface)) == (Filter {
            input: ChainState {
                rules: blocks(ports, |b: BypassView| input_block(b)) + f.input.rules
                    + ports.map_values(|b: BypassView| input_pass(b, interface)),
                ..f.input
            },
            forward: f.forward,
            output: ChainState {
                rules: blocks(ports, |b: BypassView| output_block(b)) + f.output.rules
                    + ports.map_values(|b: BypassView| output_pass(b, interface)),
                ..f.output
            },
        }),
    decreases ports.len(),
{
    let ib = |b: BypassView| input_block(b);
    let ip = |b: BypassView| input_pass(b, interface);
    let ob = |b: BypassView| output_block(b);
    let op = |b: BypassView| output_pass(b, interface);
    if ports.len() == 0 {
        assert(blocks(ports, ib) + f.input.rules + ports.map_values(ip) =~= f.input.rules);
        assert(blocks(ports, ob) + f.output.rules + ports.map_values(op) =~= f.output.rules);
    } else {
        let before = ports.drop_last();
        lemma_after_bypass(f, before, interface);
        lemma_after_sum(
            f,
            bypass_changes(before, interface),
            port_changes(ports.last(), interface),
        );
        lemma_after_port(
            after(f, bypass_changes(before, interface)),
            ports.last(),
            interface,
        );
        lemma_one_port_more(ports, ib, ip, f.input.rules);
        lemma_one_port_more(ports, ob, op, f.output.rules);
    }
}

/// The departing packets that the closed network lets through: those that enter the tunnel over
/// UDP or TCP, those that stay in the local network, those that carry the tunnel to its server,
/// echo requests, and those on the loopback interface.
pub open spec fn may_leave(
    network: Seq<char>,
    interface: Seq<char>,
    port: int,
    p: Packet,
) -> bool {
    ||| (p.leaves_on)(TUNNEL@) && ((p.carries)("udp"@) || (p.carries)("tcp"@))
    ||| (p.sent_from)(network) && (p.sent_to)(network)
    ||| (p.leaves_on)(interface) && (p.carries)("udp"@) && (p.sent_to_port)(text::decimal(port))
    ||| (p.carries)("icmp"@) && (p.signals)("echo-request"@)
    ||| (p.leaves_on)("lo"@)
}

/// The arriving packets that the closed network lets in, the counterpart of `may_leave`.
pub open spec fn may_enter(
    network: Seq<char>,
    interface: Seq<char>,
    port: int,
    p: Packet,
) -> bool {
    ||| (p.arrives_on)(TUNNEL@) && ((p.carries)("udp"@) || (p.carries)("tcp"@))
    ||| (p.sent_from)(network) && (p.sent_to)(network)
    ||| (p.arrives_on)(interface) && (p.carries)("udp"@) && (p.sent_from_port)(
        text::decimal(port),
    )
    ||| (p.carries)("icmp"@) && (p.signals)("echo-reply"@)
    ||| (p.arrives_on)("lo"@)
}

/// Whether the packet departs through `interface` from one of the ports.
pub open spec fn leaves_from(ports: Seq<BypassView>, interface: Seq<char>, p: Packet) -> bool {
    (p.leaves_on)(interface) && exists|i: int|
        0 <= i < ports.len() && (p.carries)((#[trigger] ports[i]).protocol) && (p.sent_from_port)(
            ports[i].port,
        )
}

/// Whether the packet arrives through `interface` for one of the ports.
pub open spec fn arrives_for(ports: Seq<BypassView>, interface: Seq<char>, p: Packet) -> bool {
    (p.arrives_on)(interface) && exists|i: int|
        0 <= i < ports.len() && (p.carries)((#[trigger] ports[i]).protocol) && (p.sent_to_port)(
            ports[i].port,
        )
}

/// The table after the whole plan.
pub open spec fn guarded(
    f: Filter,
    network: Seq<char>,
    interface: Seq<char>,
    port: int,
    ports: Seq<BypassView>,
) -> Filter {
    after(f, guard_changes(network, interface, port, ports))
}

proof fn lemma_output_rules(network: Seq<char>, interface: Seq<char>, port: int, p: Packet)
    ensures
        settled(output_rules(network, interface, port), p) == (if may_leave(
            network,
            interface,
            port,
            p,
        ) {
            Some(Target::Accept)
        } else {
            None
        }),
{
    let rules = output_rules(network, interface, port);
    lemma_settled_uniform(rules, Target::Accept, p);
    assert(matches_rule(rules[0], p) == ((p.leaves_on)(TUNNEL@) && (p.carries)("udp"@)));
    assert(matches_rule(rules[1], p) == ((p.leaves_on)(TUNNEL@) && (p.carries)("tcp"@)));
    assert(matches_rule(rules[2], p) == ((p.sent_from)(network) && (p.sent_to)(network)));
    assert(matches_rule(rules[3], p) == ((p.leaves_on)(interface) && (p.carries)("udp"@) && (
    p.sent_to_port)(text::decimal(port))));
    assert(matches_rule(rules[4], p) == ((p.carries)("icmp"@) && (p.signals)("echo-request"@)));
    assert(matches_rule(rules[5], p) == (p.leaves_on)("lo"@));
}

proof fn lemma_input_rules(network: Seq<char>, interface: Seq<char>, port: int, p: Packet)
    ensures
        settled(input_rules(network, interface, port), p) == (if may_enter(
            network,
            interface,
            port,
            p,
        ) {
            Some(Target::Accept)
        } else {
            None
        }),
{
    let rules = input_rules(network, interface, port);
    lemma_settled_uniform(rules, Target::Accept, p);
    assert(matches_rule(rules[0], p) == ((p.arrives_on)(TUNNEL@) && (p.carries)("udp"@)));
    assert(matches_rule(rules[1], p) == ((p.arrives_on)(TUNNEL@) && (p.carries)("tcp"@)));
    assert(matches_rule(rules[2], p) == ((p.sent_from)(network) && (p.sent_to)(network)));
    assert(matches_rule(rules[3], p) == ((p.arrives_on)(interface) && (p.carries)("udp"@) && (
    p.sent_from_port)(text::decimal(port))));
    assert(matches_rule(rules[4], p) == ((p.carries)("icmp"@) && (p.signals)("echo-reply"@)));
    assert(matches_rule(rules[5], p) == (p.arrives_on)("lo"@));
}

/// What becomes of every departing packet that no earlier rule settles: one that would take a
/// bypassed port through the tunnel is dropped; of the others, those pass that the closed network
/// lets through and those that leave from a bypassed port through the local interface; the rest
/// is dropped.
pub proof fn law_departing_packets(
    f: Filter,
    network: Seq<char>,
    interface: Seq<char>,
    port: int,
    ports: Seq<BypassView>,
    p: Packet,
)
    requires
        settled(f.output.rules, p) is None,
    ensures
        verdict(guarded(f, network, interface, port, ports).output, p) == (if leaves_from(
            ports,
            TUNNEL@,
            p,
        ) {
            Target::Drop
        } else if may_leave(network, interface, port, p) || leaves_from(ports, interface, p) {
            Target::Accept
        } else {
            Target::Drop
        }),
{
    let base = after(f, closing_changes(network, interface, port));
    lemma_after_sum(
        f,
        closing_changes(network, interface, port),
        bypass_changes(ports, interface),
    );
    lemma_after_closing(f, network, interface, port);
    lemma_after_bypass(base, ports, interface);
    let block = |b: BypassView| output_block(b);
    let pass = |b: BypassView| output_pass(b, interface);
    let front = blocks(ports, block);
    let back = ports.map_values(pass);
    lemma_blocks(ports, block);
    assert forall|i: int| 0 <= i < front.len() implies (#[trigger] front[i]).target
        == Target::Drop by {}
    lemma_settled_uniform(front, Target::Drop, p);
    lemma_settled_uniform(back, Target::Accept, p);
    lemma_settled_sum(front + base.output.rules, back, p);
    lemma_settled_sum(front, base.output.rules, p);
    lemma_settled_sum(f.output.rules, output_rules(network, interface, port), p);
    lemma_output_rules(network, interface, port, p);
    if leaves_from(ports, TUNNEL@, p) {
        let i = choose|i: int|
            0 <= i < ports.len() && (p.carries)((#[trigger] ports[i]).protocol) && (
            p.sent_from_port)(ports[i].port);
        assert(matches_rule(front[ports.len() - 1 - i], p));
    }
    if leaves_from(ports, interface, p) {
        let i = choose|i: int|
            0 <= i < ports.len() && (p.carries)((#[trigger] ports[i]).protocol) && (
            p.sent_from_port)(ports[i].port);
        assert(matches_rule(back[i], p));
    }
    if exists|i: int| 0 <= i < front.len() && matches_rule(#[trigger] front[i], p) {
        let i = choose|i: int| 0 <= i < front.len() && matches_rule(#[trigger] front[i], p);
        assert(front[i] == block(ports[ports.len() - 1 - i]));
        assert(leaves_from(ports, TUNNEL@, p));
    }
    if exists|i: int| 0 <= i < back.len() && matches_rule(#[trigger] back[i], p) {
        let i = choose|i: int| 0 <= i < back.len() && matches_rule(#[trigger] back[i], p);
        assert(back[i] == pass(ports[i]));
        assert(leaves_from(ports, interface, p));
    }
}

/// What becomes of every arriving packet that no earlier rule settles, the counterpart of
/// `law_departing_packets`.
pub proof fn law_arriving_packets(
    f: Filter,
    network: Seq<char>,
    interface: Seq<char>,
    port: int,
    ports: Seq<BypassView>,
    p: Packet,
)
    requires
        settled(f.input.rules, p) is None,
    ensures
        verdict(guarded(f, network, interface, port, ports).input, p) == (if arrives_for(
            ports,
            TUNNEL@,
            p,
        ) {
            Target::Drop
        } else if may_enter(network, interface, port, p) || arrives_for(ports, interface, p) {
            Target::Accept
        } else {
            Target::Drop
        }),
{
    let base = after(f, closing_changes(network, interface, port));
    lemma_after_sum(
        f,
        closing_changes(network, interface, port),
        bypass_changes(ports, interface),
    );
    lemma_after_closing(f, network, interface, port);
    lemma_after_bypass(base, ports, interface);
    let block = |b: BypassView| input_block(b);
    let pass = |b: BypassView| input_pass(b, interface);
    let front = blocks(ports, block);
    let back = ports.map_values(pass);
    lemma_blocks(ports, block);
    assert forall|i: int| 0 <= i < front.len() implies (#[trigger] front[i]).target
        == Target::Drop by {}
    lemma_settled_uniform(front, Target::Drop, p);
    lemma_settled_uniform(back, Target::Accept, p);
    lemma_settled_sum(front + base.input.rules, back, p);
    lemma_settled_sum(front, base.input.rules, p);
    lemma_settled_sum(f.input.rules, input_rules(network, interface, port), p);
    lemma_input_rules(network, interface, port, p);
    if arrives_for(ports, TUNNEL@, p) {
        let i = choose|i: int|
            0 <= i < ports.len() && (p.carries)((#[trigger] ports[i]).protocol) && (
            p.sent_to_port)(ports[i].port);
        assert(matches_rule(front[ports.len() - 1 - i], p));
    }
    if arrives_for(ports, interface, p) {
        let i = choose|i: int|
            0 <= i < ports.len() && (p.carries)((#[trigger] ports[i]).protocol) && (
            p.sent_to_port)(ports[i].port);
        assert(matches_rule(back[i], p));
    }
    if exists|i: int| 0 <= i < front.len() && matches_rule(#[trigger] front[i], p) {
        let i = choose|i: int| 0 <= i < front.len() && matches_rule(#[trigger] front[i], p);
        assert(front[i] == block(ports[ports.len() - 1 - i]));
        assert(arrives_for(ports, TUNNEL@, p));
    }
    if exists|i: int| 0 <= i < back.len() && matches_rule(#[trigger] back[i], p) {
        let i = choose|i: int| 0 <= i < back.len() && matches_rule(#[trigger] back[i], p);
        assert(back[i] == pass(ports[i]));
        assert(arrives_for(ports, interface, p));
    }
}

/// A packet that is handed on from one interface to another is dropped, unless an earlier rule
/// settles it.
pub proof fn law_no_packet_is_forwarded(
    f: Filter,
    network: Seq<char>,
    interface: Seq<char>,
    port: int,
    ports: Seq<BypassView>,
    p: Packet,
)
    requires
        settled(f.forward.rules, p) is None,
    ensures
        verdict(guarded(f, network, interface, port, ports).forward, p) == Target::Drop,
{
    let base = after(f, closing_changes(network, interface, port));
    lemma_after_sum(
        f,
        closing_changes(network, interface, port),
        bypass_changes(ports, interface),
    );
    lemma_after_closing(f, network, interface, port);
    lemma_after_bypass(base, ports, interface);
}

/// No packet leaves outside the tunnel: one that takes neither the tunnel nor the loopback
/// interface, that does not stay in the local network, that is no echo request, that is not the
/// tunnel itself on its way to the server and that comes from no bypassed port is dropped.
pub proof fn law_nothing_leaves_outside_the_tunnel(
    f: Filter,
    network: Seq<char>,
    interface: Seq<char>,
    port: int,
    ports: Seq<BypassView>,
    p: Packet,
)
    requires
        settled(f.output.rules, p) is None,
        !(p.leaves_on)(TUNNEL@),
        !(p.leaves_on)("lo"@),
        !((p.sent_from)(network) && (p.sent_to)(network)),
        !((p.carries)("icmp"@) && (p.signals)("echo-request"@)),
        !((p.leaves_on)(interface) && (p.carries)("udp"@) && (p.sent_to_port)(
            text::decimal(port),
        )),
        !leaves_from(ports, interface, p),
    ensures
        verdict(guarded(f, network, interface, port, ports).output, p) == Target::Drop,
{
    law_departing_packets(f, network, interface, port, ports, p);
}

/// The traffic of a bypassed port takes the local interface instead of the tunnel: what would
/// leave from it through the tunnel is dropped, what leaves from it through the local interface
/// passes.
pub proof fn law_bypassed_ports_avoid_the_tunnel(
    f: Filter,
    network: Seq<char>,
    interface: Seq<char>,
    port: int,
    ports: Seq<BypassView>,
    i: int,
    p: Packet,
)
    requires
        settled(f.output.rules, p) is None,
        0 <= i < ports.len(),
        (p.carries)(ports[i].protocol),
        (p.sent_from_port)(ports[i].port),
    ensures
        (p.leaves_on)(TUNNEL@) ==> verdict(
            guarded(f, network, interface, port, ports).output,
            p,
        ) == Target::Drop,
        (p.leaves_on)(interface) && !(p.leaves_on)(TUNNEL@) ==> verdict(
            guarded(f, network, interface, port, ports).output,
            p,
        ) == Target::Accept,
{
    law_departing_packets(f, network, interface, port, ports, p);
}

/// No packet enters outside the tunnel: one that comes through neither the tunnel nor the loopback
/// interface, that does not stay in the local network, that answers no echo request, that is not
/// the tunnel itself on its way from the server and that is for no bypassed port is dropped.
pub proof fn law_nothing_enters_outside_the_tunnel(
    f: Filter,
    network: Seq<char>,
    interface: Seq<char>,
    port: int,
    ports: Seq<BypassView>,
    p: Packet,
)
    requires
        settled(f.input.rules, p) is None,
        !(p.arrives_on)(TUNNEL@),
        !(p.arrives_on)("lo"@),
        !((p.sent_from)(network) && (p.sent_to)(network)),
        !((p.carries)("icmp"@) && (p.signals)("echo-reply"@)),
        !((p.arrives_on)(interface) && (p.carries)("udp"@) && (p.sent_from_port)(
            text::decimal(port),
        )),
        !arrives_for(ports, interface, p),
    ensures
        verdict(guarded(f, network, interface, port, ports).input, p) == Target::Drop,
{
    law_arriving_packets(f, network, interface, port, ports, p);
}

/// A bypassed port is reached through the local interface instead of the tunnel.
pub proof fn law_bypassed_ports_are_reached_outside_the_tunnel(
    f: Filter,
    network: Seq<char>,
    interface: Seq<char>,
    port: int,
    ports: Seq<BypassView>,
    i: int,
    p: Packet,
)
    requires
        settled(f.input.rules, p) is None,
        0 <= i < ports.len(),
        (p.carries)(ports[i].protocol),
        (p.sent_to_port)(ports[i].port),
    ensures
        (p.arrives_on)(TUNNEL@) ==> verdict(
            guarded(f, network, interface, port, ports).input,
            p,
        ) == Target::Drop,
        (p.arrives_on)(interface) && !(p.arrives_on)(TUNNEL@) ==> verdict(
            guarded(f, network, interface, port, ports).input,
            p,
        ) == Target::Accept,
{
    law_arriving_packets(f, network, interface, port, ports, p);
}

// What a plan is on the command line, and which ports a list leads past the tunnel.

/// An entry names a port exactly when it holds a slash: the port is what stands before the first
/// slash, the protocol all that stands behind it.
pub proof fn law_an_entry_is_port_and_protocol(entry: Seq<char>)
    ensures
        match bypass_port(entry) {
            Some(b) => entry == b.port.push('/') + b.protocol && !b.port.contains('/'),
            None => !entry.contains('/'),
        },
{
    text::law_halves_make_up_the_text(entry, '/');
}

/// The ports that a list leads past the tunnel are its entries, one for each, in order: joined by a
/// slash, the port and the protocol of each are the entry. They go up to the first entry without a
/// slash, which is the one that is rejected; where every entry has one, all are led past the tunnel
/// and none is rejected. Without a list there are no ports.
pub proof fn law_every_listed_port_is_bypassed(list: Seq<char>)
    ensures
        ({
            let entries = text::pieces(list, ',');
            let ports = listed_ports(Some(list));
            &&& ports.len() <= entries.len()
            &&& forall|i: int|
                0 <= i < ports.len() ==> entries[i] == (#[trigger] ports[i]).port.push('/')
                    + ports[i].protocol && !ports[i].port.contains('/')
            &&& ports.len() < entries.len() ==> !entries[ports.len() as int].contains('/')
                && rejected_entry(Some(list)) == Some(entries[ports.len() as int])
            &&& ports.len() == entries.len() ==> rejected_entry(Some(list)) is None
            &&& (forall|i: int| 0 <= i < entries.len() ==> (#[trigger] entries[i]).contains('/'))
                ==> ports.len() == entries.len()
        }),
        listed_ports(None).len() == 0,
        rejected_entry(None) is None,
{
    lemma_leading_ports(text::pieces(list, ','));
}

proof fn lemma_leading_ports(entries: Seq<Seq<char>>)
    ensures
        ({
            let ports = leading_ports(entries);
            &&& ports.len() <= entries.len()
            &&& forall|i: int|
                0 <= i < ports.len() ==> entries[i] == (#[trigger] ports[i]).port.push('/')
                    + ports[i].protocol && !ports[i].port.contains('/')
            &&& ports.len() < entries.len() ==> !entries[ports.len() as int].contains('/')
        }),
    decreases entries.len(),
{
    if entries.len() > 0 {
        law_an_entry_is_port_and_protocol(entries.first());
        let rest = entries.drop_first();
        lemma_leading_ports(rest);
        let ports = leading_ports(entries);
        if bypass_port(entries.first()) is Some {
            let later = leading_ports(rest);
            assert(ports =~= seq![bypass_port(entries.first())->0] + later);
            assert forall|i: int| 0 <= i < ports.len() implies entries[i] == (
            #[trigger] ports[i]).port.push('/') + ports[i].protocol && !ports[i].port.contains(
                '/',
            ) by {
                if i > 0 {
                    assert(ports[i] == later[i - 1]);
                    assert(entries[i] == rest[i - 1]);
                }
            }
            if ports.len() < entries.len() {
                assert(rest[later.len() as int] == entries[ports.len() as int]);
            }
        }
    }
}

/// A list of one port and its protocol leads exactly that port past the tunnel, and one entry more
/// behind a list whose entries all name ports leads exactly one port more past it.
pub proof fn law_one_entry_more_is_one_port_more(
    list: Seq<char>,
    port: Seq<char>,
    protocol: Seq<char>,
)
    requires
        !port.contains('/'),
        !port.contains(','),
        !protocol.contains(','),
    ensures
        listed_ports(Some(port.push('/') + protocol)) == seq![BypassView { port, protocol }],
        rejected_entry(Some(port.push('/') + protocol)) is None,
        rejected_entry(Some(list)) is None ==> listed_ports(
            Some(list.push(',') + (port.push('/') + protocol)),
        ) == listed_ports(Some(list)).push(BypassView { port, protocol }),
{
    let entry = port.push('/') + protocol;
    if entry.contains(',') {
        let k = choose|k: int| 0 <= k < entry.len() && entry[k] == ',';
        if k < port.len() {
            assert(port[k] == ',');
        } else if k > port.len() {
            assert(protocol[k - port.len() - 1] == ',');
        }
    }
    text::law_a_text_without_separator_is_one_piece(entry, ',');
    text::law_halves_of_two_texts(port, protocol, '/');
    let b = BypassView { port, protocol };
    assert(bypass_port(entry) == Some(b));
    lemma_leading_ports_all(seq![entry], seq![b], 1);
    if rejected_entry(Some(list)) is None {
        let entries = text::pieces(list, ',');
        let ports = leading_ports(entries);
        law_every_listed_port_is_bypassed(list);
        text::law_pieces_of_two_texts(list, entry, ',');
        let more = entries + seq![entry];
        assert forall|j: int| 0 <= j < more.len() implies bypass_port(#[trigger] more[j]) == Some(
            ports.push(b)[j],
        ) by {
            if j < entries.len() {
                assert(more[j] == entries[j]);
                assert(entries[j] == ports[j].port.push('/') + ports[j].protocol);
                text::law_halves_of_two_texts(ports[j].port, ports[j].protocol, '/');
                assert(bypass_port(entries[j]) == Some(ports[j]));
            }
        }
        lemma_leading_ports_all(more, ports.push(b), more.len() as int);
    }
}

/// From the list to the packets: a packet of a port that the list names, behind entries that all
/// name ports, is dropped on its way through the tunnel and passes through the local interface, in
/// either direction, unless an earlier rule settles it.
pub proof fn law_listed_ports_use_the_local_interface(
    f: Filter,
    network: Seq<char>,
    interface: Seq<char>,
    server_port: int,
    list: Seq<char>,
    i: int,
    port: Seq<char>,
    protocol: Seq<char>,
    p: Packet,
)
    requires
        0 <= i < text::pieces(list, ',').len(),
        forall|j: int| 0 <= j < i ==> (#[trigger] text::pieces(list, ',')[j]).contains('/'),
        text::pieces(list, ',')[i] == port.push('/') + protocol,
        !port.contains('/'),
        (p.carries)(protocol),
    ensures
        ({
            let table = after(
                f,
                guard_changes(network, interface, server_port, listed_ports(Some(list))),
            );
            &&& settled(f.output.rules, p) is None && (p.sent_from_port)(port) ==> {
                &&& (p.leaves_on)(TUNNEL@) ==> verdict(table.output, p) == Target::Drop
                &&& (p.leaves_on)(interface) && !(p.leaves_on)(TUNNEL@) ==> verdict(
                    table.output,
                    p,
                ) == Target::Accept
            }
            &&& settled(f.input.rules, p) is None && (p.sent_to_port)(port) ==> {
                &&& (p.arrives_on)(TUNNEL@) ==> verdict(table.input, p) == Target::Drop
                &&& (p.arrives_on)(interface) && !(p.arrives_on)(TUNNEL@) ==> verdict(
                    table.input,
                    p,
                ) == Target::Accept
            }
        }),
{
    let entries = text::pieces(list, ',');
    let ports = listed_ports(Some(list));
    law_every_listed_port_is_bypassed(list);
    assert(entries[i][port.len() as int] == '/');
    assert(entries[i].contains('/'));
    if ports.len() <= i {
        assert(entries[ports.len() as int].contains('/'));
    }
    text::law_halves_of_two_texts(port, protocol, '/');
    text::law_halves_of_two_texts(ports[i].port, ports[i].protocol, '/');
    if settled(f.output.rules, p) is None && (p.sent_from_port)(port) {
        law_bypassed_ports_avoid_the_tunnel(f, network, interface, server_port, ports, i, p);
    }
    if settled(f.input.rules, p) is None && (p.sent_to_port)(port) {
        law_bypassed_ports_are_reached_outside_the_tunnel(
            f,
            network,
            interface,
            server_port,
            ports,
            i,
            p,
        );
    }
}

/// The traffic that the client is there for departs: what enters the tunnel over UDP or TCP, what
/// stays in the local network, what carries the tunnel to its server, echo requests and what stays
/// on the loopback interface all pass, unless an earlier rule settles the packet or it would take a
/// bypassed port through the tunnel.
pub proof fn law_open_traffic_departs(
    f: Filter,
    network: Seq<char>,
    interface: Seq<char>,
    port: int,
    ports: Seq<BypassView>,
    p: Packet,
)
    requires
        settled(f.output.rules, p) is None,
        (p.leaves_on)(TUNNEL@) ==> forall|i: int|
            0 <= i < ports.len() ==> !((p.carries)((#[trigger] ports[i]).protocol) && (
            p.sent_from_port)(ports[i].port)),
        ({
            ||| (p.leaves_on)(TUNNEL@) && (p.carries)("udp"@)
            ||| (p.leaves_on)(TUNNEL@) && (p.carries)("tcp"@)
            ||| (p.sent_from)(network) && (p.sent_to)(network)
            ||| (p.leaves_on)(interface) && (p.carries)("udp"@) && (p.sent_to_port)(
                text::decimal(port),
            )
            ||| (p.carries)("icmp"@) && (p.signals)("echo-request"@)
            ||| (p.leaves_on)("lo"@)
        }),
    ensures
        verdict(
            after(f, guard_changes(network, interface, port, ports)).output,
            p,
        ) == Target::Accept,
{
    law_departing_packets(f, network, interface, port, ports, p);
}

/// The traffic that the client is there for arrives, the counterpart of
/// `law_open_traffic_departs`.
pub proof fn law_open_traffic_arrives(
    f: Filter,
    network: Seq<char>,
    interface: Seq<char>,
    port: int,
    ports: Seq<BypassView>,
    p: Packet,
)
    requires
        settled(f.input.rules, p) is None,
        (p.arrives_on)(TUNNEL@) ==> forall|i: int|
            0 <= i < ports.len() ==> !((p.carries)((#[trigger] ports[i]).protocol) && (
            p.sent_to_port)(ports[i].port)),
        ({
            ||| (p.arrives_on)(TUNNEL@) && (p.carries)("udp"@)
            ||| (p.arrives_on)(TUNNEL@) && (p.carries)("tcp"@)
            ||| (p.sent_from)(network) && (p.sent_to)(network)
            ||| (p.arrives_on)(interface) && (p.carries)("udp"@) && (p.sent_from_port)(
                text::decimal(port),
            )
            ||| (p.carries)("icmp"@) && (p.signals)("echo-reply"@)
            ||| (p.arrives_on)("lo"@)
        }),
    ensures
        verdict(
            after(f, guard_changes(network, interface, port, ports)).input,
            p,
        ) == Target::Accept,
{
    law_arriving_packets(f, network, interface, port, ports, p);
}

/// Whether a change appends to a chain the rule that is written so.
pub open spec fn appends(change: ChangeView, chain: Chain, written: Seq<char>) -> bool {
    match change {
        ChangeView::Append { chain: c, rule } => c == chain && rule_text(rule) == written,
        _ => false,
    }
}

/// Whether a change puts the rule that is written so in front of a chain.
pub open spec fn puts_first(change: ChangeView, chain: Chain, written: Seq<char>) -> bool {
    match change {
        ChangeView::Insert { chain: c, rule, position } => c == chain && position == 1 && rule_text(
            rule,
        ) == written,
        _ => false,
    }
}

/// An option and its value in front of a text, where there is a value.
spec fn with_option(flag: Seq<char>, value: Option<Seq<char>>, rest: Seq<char>) -> Seq<char> {
    match value {
        Some(v) => flag + v + " "@ + rest,
        None => rest,
    }
}

proof fn lemma_with_option(flag: Seq<char>, value: Option<Seq<char>>, rest: Seq<char>)
    ensures
        option_text(flag, value) + rest == with_option(flag, value, rest),
{
    assert(option_text(flag, value) + rest =~= with_option(flag, value, rest));
}

/// A rule from its end: every option that has a value in front of the rest.
proof fn lemma_written(r: RuleView)
    ensures
        rule_text(r) == with_option(
            "-s "@,
            r.source,
            with_option(
                "-d "@,
                r.destination,
                with_option(
                    "-i "@,
                    r.in_interface,
                    with_option(
                        "-o "@,
                        r.out_interface,
                        with_option(
                            "-p "@,
                            r.protocol,
                            with_option(
                                "--icmp-type "@,
                                r.control_type,
                                with_option(
                                    "--sport "@,
                                    r.source_port,
                                    with_option(
                                        "--dport "@,
                                        r.destination_port,
                                        "-j "@ + target_name(r.target),
                                    ),
                                ),
                            ),
                        ),
                    ),
                ),
            ),
        ),
{
    let a = option_text("-s "@, r.source);
    let b = option_text("-d "@, r.destination);
    let c = option_text("-i "@, r.in_interface);
    let d = option_text("-o "@, r.out_interface);
    let e = option_text("-p "@, r.protocol);
    let g = option_text("--icmp-type "@, r.control_type);
    let h = option_text("--sport "@, r.source_port);
    let k = option_text("--dport "@, r.destination_port);
    let end = "-j "@ + target_name(r.target);
    let from_k = k + end;
    let from_h = h + from_k;
    let from_g = g + from_h;
    let from_e = e + from_g;
    let from_d = d + from_e;
    let from_c = c + from_d;
    let from_b = b + from_c;
    lemma_sum_regroups(a + b + c + d + e + g + h + k, "-j "@, target_name(r.target));
    lemma_sum_regroups(a + b + c + d + e + g + h, k, end);
    lemma_sum_regroups(a + b + c + d + e + g, h, from_k);
    lemma_sum_regroups(a + b + c + d + e, g, from_h);
    lemma_sum_regroups(a + b + c + d, e, from_g);
    lemma_sum_regroups(a + b + c, d, from_e);
    lemma_sum_regroups(a + b, c, from_d);
    lemma_sum_regroups(a, b, from_c);
    lemma_with_option("--dport "@, r.destination_port, end);
    lemma_with_option("--sport "@, r.source_port, from_k);
    lemma_with_option("--icmp-type "@, r.control_type, from_h);
    lemma_with_option("-p "@, r.protocol, from_g);
    lemma_with_option("-o "@, r.out_interface, from_e);
    lemma_with_option("-i "@, r.in_interface, from_d);
    lemma_with_option("-d "@, r.destination, from_c);
    lemma_with_option("-s "@, r.source, from_b);
}

proof fn lemma_tunnel_rules_written()
    ensures
        ({
            let any = every_packet(Target::Accept);
            &&& rule_text(
                RuleView { in_interface: Some("wg0"@), protocol: Some("udp"@), ..any },
            ) == "-i wg0 -p udp -j ACCEPT"@
            &&& rule_text(
                RuleView { in_interface: Some("wg0"@), protocol: Some("tcp"@), ..any },
            ) == "-i wg0 -p tcp -j ACCEPT"@
            &&& rule_text(
                RuleView { out_interface: Some("wg0"@), protocol: Some("udp"@), ..any },
            ) == "-o wg0 -p udp -j ACCEPT"@
            &&& rule_text(
                RuleView { out_interface: Some("wg0"@), protocol: Some("tcp"@), ..any },
            ) == "-o wg0 -p tcp -j ACCEPT"@
        }),
{
    let any = every_packet(Target::Accept);
    lemma_written(RuleView { in_interface: Some("wg0"@), protocol: Some("udp"@), ..any });
    lemma_written(RuleView { in_interface: Some("wg0"@), protocol: Some("tcp"@), ..any });
    lemma_written(RuleView { out_interface: Some("wg0"@), protocol: Some("udp"@), ..any });
    lemma_written(RuleView { out_interface: Some("wg0"@), protocol: Some("tcp"@), ..any });
    reveal_strlit("-i ");
    reveal_strlit("-o ");
    reveal_strlit("wg0");
    reveal_strlit(" ");
    reveal_strlit("-p ");
    reveal_strlit("udp");
    reveal_strlit("tcp");
    reveal_strlit("-j ");
    reveal_strlit("ACCEPT");
    reveal_strlit("-i wg0 -p udp -j ACCEPT");
    reveal_strlit("-i wg0 -p tcp -j ACCEPT");
    reveal_strlit("-o wg0 -p udp -j ACCEPT");
    reveal_strlit("-o wg0 -p tcp -j ACCEPT");
    let end = "-j "@ + "ACCEPT"@;
    let udp = "-p "@ + "udp"@ + " "@ + end;
    let tcp = "-p "@ + "tcp"@ + " "@ + end;
    assert("-i "@ + "wg0"@ + " "@ + udp =~= "-i wg0 -p udp -j ACCEPT"@);
    assert("-i "@ + "wg0"@ + " "@ + tcp =~= "-i wg0 -p tcp -j ACCEPT"@);
    assert("-o "@ + "wg0"@ + " "@ + udp =~= "-o wg0 -p udp -j ACCEPT"@);
    assert("-o "@ + "wg0"@ + " "@ + tcp =~= "-o wg0 -p tcp -j ACCEPT"@);
}

proof fn lemma_fixed_rules_written()
    ensures
        ({
            let any = every_packet(Target::Accept);
            &&& rule_text(
                RuleView { protocol: Some("icmp"@), control_type: Some("echo-reply"@), ..any },
            ) == "-p icmp --icmp-type echo-reply -j ACCEPT"@
            &&& rule_text(
                RuleView { protocol: Some("icmp"@), control_type: Some("echo-request"@), ..any },
            ) == "-p icmp --icmp-type echo-request -j ACCEPT"@
            &&& rule_text(RuleView { in_interface: Some("lo"@), ..any }) == "-i lo -j ACCEPT"@
            &&& rule_text(RuleView { out_interface: Some("lo"@), ..any }) == "-o lo -j ACCEPT"@
        }),
{
    let any = every_packet(Target::Accept);
    lemma_written(
        RuleView { protocol: Some("icmp"@), control_type: Some("echo-reply"@), ..any },
    );
    lemma_written(
        RuleView { protocol: Some("icmp"@), control_type: Some("echo-request"@), ..any },
    );
    lemma_written(RuleView { in_interface: Some("lo"@), ..any });
    lemma_written(RuleView { out_interface: Some("lo"@), ..any });
    reveal_strlit("-i ");
    reveal_strlit("-o ");
    reveal_strlit("lo");
    reveal_strlit(" ");
    reveal_strlit("-p ");
    reveal_strlit("icmp");
    reveal_strlit("--icmp-type ");
    reveal_strlit("echo-reply");
    reveal_strlit("echo-request");
    reveal_strlit("-j ");
    reveal_strlit("ACCEPT");
    reveal_strlit("-p icmp --icmp-type echo-reply -j ACCEPT");
    reveal_strlit("-p icmp --icmp-type echo-request -j ACCEPT");
    reveal_strlit("-i lo -j ACCEPT");
    reveal_strlit("-o lo -j ACCEPT");
    let end = "-j "@ + "ACCEPT"@;
    let reply = "--icmp-type "@ + "echo-reply"@ + " "@ + end;
    let request = "--icmp-type "@ + "echo-request"@ + " "@ + end;
    assert("-p "@ + "icmp"@ + " "@ + reply =~= "-p icmp --icmp-type echo-reply -j ACCEPT"@);
    assert("-p "@ + "icmp"@ + " "@ + request =~= "-p icmp --icmp-type echo-request -j ACCEPT"@);
    assert("-i "@ + "lo"@ + " "@ + end =~= "-i lo -j ACCEPT"@);
    assert("-o "@ + "lo"@ + " "@ + end =~= "-o lo -j ACCEPT"@);
}

proof fn lemma_local_rules_written(network: Seq<char>, interface: Seq<char>, port: Seq<char>)
    ensures
        ({
            let any = every_packet(Target::Accept);
            &&& rule_text(RuleView { source: Some(network), destination: Some(network), ..any })
                == "-s "@ + network + " -d "@ + network + " -j ACCEPT"@
            &&& rule_text(
                RuleView {
                    in_interface: Some(interface),
                    protocol: Some("udp"@),
                    source_port: Some(port),
                    ..any
                },
            ) == "-i "@ + interface + " -p udp --sport "@ + port + " -j ACCEPT"@
            &&& rule_text(
                RuleView {
                    out_interface: Some(interface),
                    protocol: Some("udp"@),
                    destination_port: Some(port),
                    ..any
                },
            ) == "-o "@ + interface + " -p udp --dport "@ + port + " -j ACCEPT"@
        }),
{
    let any = every_packet(Target::Accept);
    lemma_written(RuleView { source: Some(network), destination: Some(network), ..any });
    lemma_written(
        RuleView {
            in_interface: Some(interface),
            protocol: Some("udp"@),
            source_port: Some(port),
            ..any
        },
    );
    lemma_written(
        RuleView {
            out_interface: Some(interface),
            protocol: Some("udp"@),
            destination_port: Some(port),
            ..any
        },
    );
    reveal_strlit(" ");
    reveal_strlit("-d ");
    reveal_strlit(" -d ");
    reveal_strlit("-p ");
    reveal_strlit("udp");
    reveal_strlit("--sport ");
    reveal_strlit("--dport ");
    reveal_strlit(" -p udp --sport ");
    reveal_strlit(" -p udp --dport ");
    reveal_strlit("-j ");
    reveal_strlit("ACCEPT");
    reveal_strlit(" -j ACCEPT");
    let end = "-j "@ + "ACCEPT"@;
    assert(" "@ + end =~= " -j ACCEPT"@);
    assert(" "@ + "-d "@ =~= " -d "@);
    assert(" "@ + ("-p "@ + "udp"@ + " "@ + "--sport "@) =~= " -p udp --sport "@);
    assert(" "@ + ("-p "@ + "udp"@ + " "@ + "--dport "@) =~= " -p udp --dport "@);
    assert("-s "@ + network + " "@ + ("-d "@ + network + " "@ + end) =~= "-s "@ + network + (" "@
        + "-d "@) + network + (" "@ + end));
    assert("-i "@ + interface + " "@ + ("-p "@ + "udp"@ + " "@ + ("--sport "@ + port + " "@ + end))
        =~= "-i "@ + interface + (" "@ + ("-p "@ + "udp"@ + " "@ + "--sport "@)) + port + (" "@
        + end));
    assert("-o "@ + interface + " "@ + ("-p "@ + "udp"@ + " "@ + ("--dport "@ + port + " "@ + end))
        =~= "-o "@ + interface + (" "@ + ("-p "@ + "udp"@ + " "@ + "--dport "@)) + port + (" "@
        + end));
}

/// The closed network on the command line, change by change, whatever the local network, the
/// interface and the server's port are.
pub proof fn law_the_closed_network_is_spelled_out(
    network: Seq<char>,
    interface: Seq<char>,
    port: int,
)
    ensures
        ({
            let plan = closing_changes(network, interface, port);
            let local = "-s "@ + network + " -d "@ + network + " -j ACCEPT"@;
            &&& plan.len() == 15
            &&& plan[0] == (ChangeView::Policy { chain: Chain::Forward, target: Target::Drop })
            &&& plan[1] == (ChangeView::Policy { chain: Chain::Input, target: Target::Drop })
            &&& appends(plan[2], Chain::Input, "-i wg0 -p udp -j ACCEPT"@)
            &&& appends(plan[3], Chain::Input, "-i wg0 -p tcp -j ACCEPT"@)
            &&& appends(plan[4], Chain::Input, local)
            &&& appends(
                plan[5],
                Chain::Input,
                "-i "@ + interface + " -p udp --sport "@ + text::decimal(port) + " -j ACCEPT"@,
            )
            &&& appends(plan[6], Chain::Input, "-p icmp --icmp-type echo-reply -j ACCEPT"@)
            &&& appends(plan[7], Chain::Input, "-i lo -j ACCEPT"@)
            &&& plan[8] == (ChangeView::Policy { chain: Chain::Output, target: Target::Drop })
            &&& appends(plan[9], Chain::Output, "-o wg0 -p udp -j ACCEPT"@)
            &&& appends(plan[10], Chain::Output, "-o wg0 -p tcp -j ACCEPT"@)
            &&& appends(plan[11], Chain::Output, local)
            &&& appends(
                plan[12],
                Chain::Output,
                "-o "@ + interface + " -p udp --dport "@ + text::decimal(port) + " -j ACCEPT"@,
            )
            &&& appends(plan[13], Chain::Output, "-p icmp --icmp-type echo-request -j ACCEPT"@)
            &&& appends(plan[14], Chain::Output, "-o lo -j ACCEPT"@)
        }),
{
    lemma_tunnel_rules_written();
    lemma_fixed_rules_written();
    lemma_local_rules_written(network, interface, text::decimal(port));
}

proof fn lemma_port_rules_written(b: BypassView, interface: Seq<char>)
    ensures
        rule_text(input_block(b)) == "-i wg0 -p "@ + b.protocol + " --dport "@ + b.port
            + " -j DROP"@,
        rule_text(output_block(b)) == "-o wg0 -p "@ + b.protocol + " --sport "@ + b.port
            + " -j DROP"@,
        rule_text(input_pass(b, interface)) == "-i "@ + interface + " -p "@ + b.protocol
            + " --dport "@ + b.port + " -j ACCEPT"@,
        rule_text(output_pass(b, interface)) == "-o "@ + interface + " -p "@ + b.protocol
            + " --sport "@ + b.port + " -j ACCEPT"@,
{
    lemma_written(input_block(b));
    lemma_written(output_block(b));
    lemma_written(input_pass(b, interface));
    lemma_written(output_pass(b, interface));
    reveal_strlit(" ");
    reveal_strlit("-i ");
    reveal_strlit("-o ");
    reveal_strlit("wg0");
    reveal_strlit("-p ");
    reveal_strlit("--sport ");
    reveal_strlit("--dport ");
    reveal_strlit("-i wg0 -p ");
    reveal_strlit("-o wg0 -p ");
    reveal_strlit(" -p ");
    reveal_strlit(" --sport ");
    reveal_strlit(" --dport ");
    reveal_strlit("-j ");
    reveal_strlit("ACCEPT");
    reveal_strlit("DROP");
    reveal_strlit(" -j ACCEPT");
    reveal_strlit(" -j DROP");
    let accept = "-j "@ + "ACCEPT"@;
    let drop = "-j "@ + "DROP"@;
    assert(" "@ + accept =~= " -j ACCEPT"@);
    assert(" "@ + drop =~= " -j DROP"@);
    assert(" "@ + "--sport "@ =~= " --sport "@);
    assert(" "@ + "--dport "@ =~= " --dport "@);
    assert(" "@ + "-p "@ =~= " -p "@);
    assert("-i "@ + "wg0"@ + " "@ + "-p "@ =~= "-i wg0 -p "@);
    assert("-o "@ + "wg0"@ + " "@ + "-p "@ =~= "-o wg0 -p "@);
    lemma_port_rule_regroups("-i "@, "wg0"@, b.protocol, "--dport "@, b.port, drop);
    lemma_port_rule_regroups("-o "@, "wg0"@, b.protocol, "--sport "@, b.port, drop);
    lemma_port_rule_regroups("-i "@, interface, b.protocol, "--dport "@, b.port, accept);
    lemma_port_rule_regroups("-o "@, interface, b.protocol, "--sport "@, b.port, accept);
}

proof fn lemma_port_rule_regroups(
    way: Seq<char>,
    interface: Seq<char>,
    protocol: Seq<char>,
    side: Seq<char>,
    port: Seq<char>,
    end: Seq<char>,
)
    ensures
        ({
            let whole = way + interface + " "@ + ("-p "@ + protocol + " "@ + (side + port + " "@
                + end));
            &&& whole == way + interface + (" "@ + "-p "@) + protocol + (" "@ + side) + port + (
            " "@ + end)
            &&& whole == (way + interface + " "@ + "-p "@) + protocol + (" "@ + side) + port + (
            " "@ + end)
        }),
{
    let whole = way + interface + " "@ + ("-p "@ + protocol + " "@ + (side + port + " "@ + end));
    assert(whole =~= way + interface + (" "@ + "-p "@) + protocol + (" "@ + side) + port + (" "@
        + end));
    assert(whole =~= (way + interface + " "@ + "-p "@) + protocol + (" "@ + side) + port + (" "@
        + end));
}

proof fn lemma_changes_of_a_port(ports: Seq<BypassView>, interface: Seq<char>)
    ensures
        bypass_changes(ports, interface).len() == 4 * ports.len(),
        forall|i: int, k: int|
            0 <= i < ports.len() && 0 <= k < 4 ==> #[trigger] bypass_changes(
                ports,
                interface,
            )[4 * i + k] == #[trigger] port_changes(ports[i], interface)[k],
    decreases ports.len(),
{
    if ports.len() > 0 {
        let before = ports.drop_last();
        lemma_changes_of_a_port(before, interface);
        assert forall|i: int, k: int|
            0 <= i < ports.len() && 0 <= k < 4 implies #[trigger] bypass_changes(
            ports,
            interface,
        )[4 * i + k] == #[trigger] port_changes(ports[i], interface)[k] by {
            if i < before.len() {
                assert(bypass_changes(before, interface)[4 * i + k] == port_changes(
                    before[i],
                    interface,
                )[k]);
            }
        }
    }
}

proof fn lemma_port_changes_written(b: BypassView, interface: Seq<char>)
    ensures
        ({
            let steps = port_changes(b, interface);
            &&& puts_first(
                steps[0],
                Chain::Input,
                "-i wg0 -p "@ + b.protocol + " --dport "@ + b.port + " -j DROP"@,
            )
            &&& appends(
                steps[1],
                Chain::Input,
                "-i "@ + interface + " -p "@ + b.protocol + " --dport "@ + b.port + " -j ACCEPT"@,
            )
            &&& puts_first(
                steps[2],
                Chain::Output,
                "-o wg0 -p "@ + b.protocol + " --sport "@ + b.port + " -j DROP"@,
            )
            &&& appends(
                steps[3],
                Chain::Output,
                "-o "@ + interface + " -p "@ + b.protocol + " --sport "@ + b.port + " -j ACCEPT"@,
            )
        }),
{
    lemma_port_rules_written(b, interface);
}

proof fn lemma_plan_of_a_port(
    network: Seq<char>,
    interface: Seq<char>,
    server_port: int,
    ports: Seq<BypassView>,
    i: int,
)
    requires
        0 <= i < ports.len(),
    ensures
        ({
            let plan = guard_changes(network, interface, server_port, ports);
            let steps = port_changes(ports[i], interface);
            &&& plan.len() == 15 + 4 * ports.len()
            &&& plan.take(15) == closing_changes(network, interface, server_port)
            &&& plan[15 + 4 * i] == steps[0]
            &&& plan[15 + 4 * i + 1] == steps[1]
            &&& plan[15 + 4 * i + 2] == steps[2]
            &&& plan[15 + 4 * i + 3] == steps[3]
        }),
{
    let plan = guard_changes(network, interface, server_port, ports);
    let closing = closing_changes(network, interface, server_port);
    let more = bypass_changes(ports, interface);
    let steps = port_changes(ports[i], interface);
    assert(closing.len() == 15);
    lemma_changes_of_a_port(ports, interface);
    assert(more[4 * i + 0] == steps[0]);
    assert(more[4 * i + 1] == steps[1]);
    assert(more[4 * i + 2] == steps[2]);
    assert(more[4 * i + 3] == steps[3]);
    assert(plan.take(15) =~= closing);
}

/// The whole plan on the command line: the fifteen changes that close the network, and then four
/// for each port of the list, whatever the port and the protocol are. What would take the port
/// through the tunnel is dropped in front of all other rules, what takes it through the local
/// interface is accepted behind them, in either direction.
pub proof fn law_the_whole_plan_is_spelled_out(
    network: Seq<char>,
    interface: Seq<char>,
    server_port: int,
    ports: Seq<BypassView>,
    i: int,
)
    requires
        0 <= i < ports.len(),
    ensures
        ({
            let plan = guard_changes(network, interface, server_port, ports);
            let port = ports[i].port;
            let protocol = ports[i].protocol;
            let at = 15 + 4 * i;
            &&& plan.len() == 15 + 4 * ports.len()
            &&& plan.take(15) == closing_changes(network, interface, server_port)
            &&& puts_first(
                plan[at],
                Chain::Input,
                "-i wg0 -p "@ + protocol + " --dport "@ + port + " -j DROP"@,
            )
            &&& appends(
                plan[at + 1],
                Chain::Input,
                "-i "@ + interface + " -p "@ + protocol + " --dport "@ + port + " -j ACCEPT"@,
            )
            &&& puts_first(
                plan[at + 2],
                Chain::Output,
                "-o wg0 -p "@ + protocol + " --sport "@ + port + " -j DROP"@,
            )
            &&& appends(
                plan[at + 3],
                Chain::Output,
                "-o "@ + interface + " -p "@ + protocol + " --sport "@ + port + " -j ACCEPT"@,
            )
        }),
{
    lemma_plan_of_a_port(network, interface, server_port, ports, i);
    lemma_port_changes_written(ports[i], interface);
}

/// Where no port is led past the tunnel, the whole plan is the one that closes the network.
pub proof fn law_without_ports_the_network_is_only_closed(
    network: Seq<char>,
    interface: Seq<char>,
    server_port: int,
    ports: Seq<BypassView>,
)
    requires
        ports.len() == 0,
    ensures
        guard_changes(network, interface, server_port, ports) == closing_changes(
            network,
            interface,
            server_port,
        ),
{
    assert(guard_changes(network, interface, server_port, ports) =~= closing_changes(
        network,
        interface,
        server_port,
    ));
}

/// The views keep every value as it is.
pub proof fn law_the_views_of_the_plan_keep_all(rule: Rule, chain: Chain, t: Target, position: i32)
    ensures
        rule@.source == rule.source.deep_view(),
        rule@.destination == rule.destination.deep_view(),
        rule@.in_interface == rule.in_interface.deep_view(),
        rule@.out_interface == rule.out_interface.deep_view(),
        rule@.protocol == rule.protocol.deep_view(),
        rule@.control_type == rule.control_type.deep_view(),
        rule@.source_port == rule.source_port.deep_view(),
        rule@.destination_port == rule.destination_port.deep_view(),
        rule@.target == rule.target,
        (Change::Policy { chain, target: t }).deep_view() == (ChangeView::Policy {
            chain,
            target: t,
        }),
        (Change::Append { chain, rule }).deep_view() == (ChangeView::Append { chain, rule: rule@ }),
        (Change::Insert { chain, rule, position }).deep_view() == (ChangeView::Insert {
            chain,
            rule: rule@,
            position: position as int,
        }),
{
}

/// A value more is an option more in the text of a rule, in front of the rest: its flag, the value
/// and a space, whatever the rest of the rule is. A rule without values is its target alone.
pub proof fn law_a_value_more_is_an_option_more(r: RuleView, v: Seq<char>)
    ensures
        ({
            let no_source = RuleView { source: None, ..r };
            let no_destination = RuleView { destination: None, ..no_source };
            let no_arrival = RuleView { in_interface: None, ..no_destination };
            let no_departure = RuleView { out_interface: None, ..no_arrival };
            let no_protocol = RuleView { protocol: None, ..no_departure };
            let no_control = RuleView { control_type: None, ..no_protocol };
            let no_sport = RuleView { source_port: None, ..no_control };
            let bare = RuleView { destination_port: None, ..no_sport };
            &&& rule_text(RuleView { source: Some(v), ..r }) == "-s "@ + v + " "@
                + rule_text(no_source)
            &&& rule_text(RuleView { destination: Some(v), ..no_source }) == "-d "@ + v + " "@
                + rule_text(no_destination)
            &&& rule_text(RuleView { in_interface: Some(v), ..no_destination }) == "-i "@ + v + " "@
                + rule_text(no_arrival)
            &&& rule_text(RuleView { out_interface: Some(v), ..no_arrival }) == "-o "@ + v + " "@
                + rule_text(no_departure)
            &&& rule_text(RuleView { protocol: Some(v), ..no_departure }) == "-p "@ + v + " "@
                + rule_text(no_protocol)
            &&& rule_text(RuleView { control_type: Some(v), ..no_protocol }) == "--icmp-type "@ + v
                + " "@ + rule_text(no_control)
            &&& rule_text(RuleView { source_port: Some(v), ..no_control }) == "--sport "@ + v + " "@
                + rule_text(no_sport)
            &&& rule_text(RuleView { destination_port: Some(v), ..no_sport }) == "--dport "@ + v
                + " "@ + rule_text(bare)
            &&& r.target is Accept ==> rule_text(bare) == "-j "@ + "ACCEPT"@
            &&& r.target is Drop ==> rule_text(bare) == "-j "@ + "DROP"@
        }),
{
    let no_source = RuleView { source: None, ..r };
    let no_destination = RuleView { destination: None, ..no_source };
    let no_arrival = RuleView { in_interface: None, ..no_destination };
    let no_departure = RuleView { out_interface: None, ..no_arrival };
    let no_protocol = RuleView { protocol: None, ..no_departure };
    let no_control = RuleView { control_type: None, ..no_protocol };
    let no_sport = RuleView { source_port: None, ..no_control };
    let bare = RuleView { destination_port: None, ..no_sport };
    lemma_written(RuleView { source: Some(v), ..r });
    lemma_written(no_source);
    lemma_written(RuleView { destination: Some(v), ..no_source });
    lemma_written(no_destination);
    lemma_written(RuleView { in_interface: Some(v), ..no_destination });
    lemma_written(no_arrival);
    lemma_written(RuleView { out_interface: Some(v), ..no_arrival });
    lemma_written(no_departure);
    lemma_written(RuleView { protocol: Some(v), ..no_departure });
    lemma_written(no_protocol);
    lemma_written(RuleView { control_type: Some(v), ..no_protocol });
    lemma_written(no_control);
    lemma_written(RuleView { source_port: Some(v), ..no_control });
    lemma_written(no_sport);
    lemma_written(RuleView { destination_port: Some(v), ..no_sport });
    lemma_written(bare);
}

} // verus!
