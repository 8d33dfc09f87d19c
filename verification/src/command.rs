//! The programs that the client runs, with their arguments.

use vstd::prelude::*;

use crate::text;

verus! {

/// The configuration file of the tunnel.
pub const TUNNEL_CONFIG: &'static str = "/config/wg0.conf";

/// A program with its arguments.
#[derive(Debug, Clone, PartialEq, Eq)]
pub struct CommandLine {
    pub program: String,
    pub args: Vec<String>,
}

/// A `CommandLine` with its texts as sequences of characters.
pub struct CommandView {
    pub program: Seq<char>,
    pub args: Seq<Seq<char>>,
}

impl View for CommandLine {
    type V = CommandView;

    open spec fn view(&self) -> CommandView {
        CommandView { program: self.program@, args: self.args.deep_view() }
    }
}

impl DeepView for CommandLine {
    type V = CommandView;

    open spec fn deep_view(&self) -> CommandView {
        self.view()
    }
}

fn command(program: &str, args: Vec<&str>) -> (r: CommandLine)
    ensures
        r@.program == program@,
        r@.args == args.deep_view(),
{
    let mut owned: Vec<String> = Vec::new();
    let mut i: usize = 0;
    while i < args.len()
        invariant
            i <= args@.len(),
            owned.deep_view() == args.deep_view().take(i as int),
        decreases args.len() - i,
    {
        let ghost before = owned.deep_view();
        owned.push(args[i].to_owned());
        assert(owned.deep_view() =~= before.push(args@[i as int]@));
        assert(args.deep_view().take(i + 1) =~= before.push(args@[i as int]@));
        i = i + 1;
    }
    assert(args.deep_view().take(i as int) =~= args.deep_view());
    CommandLine { program: program.to_owned(), args: owned }
}

/// Takes the tunnel down.
pub fn stop_wireguard() -> (r: CommandLine)
    ensures
        r@ == (CommandView { program: "wg-quick"@, args: seq!["down"@, TUNNEL_CONFIG@] }),
{
    let r: CommandLine = command("wg-quick", vec!["down", TUNNEL_CONFIG]);
    assert(r@.args =~= seq!["down"@, TUNNEL_CONFIG@]);
    r
}

/// Brings the tunnel up.
pub fn start_wireguard() -> (r: CommandLine)
    ensures
        r@ == (CommandView { program: "wg-quick"@, args: seq!["up"@, TUNNEL_CONFIG@] }),
{
    let r: CommandLine = command("wg-quick", vec!["up", TUNNEL_CONFIG]);
    assert(r@.args =~= seq!["up"@, TUNNEL_CONFIG@]);
    r
}

/// Takes out of `wg-quick` the lines that set `src_valid_mark`, which a container may not set.
pub fn patch_wireguard() -> (r: CommandLine)
    ensures
        r@ == (CommandView {
            program: "sed"@,
            args: seq![
                "-i"@,
                "/net\\.ipv4\\.conf\\.all\\.src_valid_mark/d"@,
                "/usr/bin/wg-quick"@,
            ],
        }),
{
    let r: CommandLine = command(
        "sed",
        vec!["-i", "/net\\.ipv4\\.conf\\.all\\.src_valid_mark/d", "/usr/bin/wg-quick"],
    );
    assert(r@.args =~= seq![
        "-i"@,
        "/net\\.ipv4\\.conf\\.all\\.src_valid_mark/d"@,
        "/usr/bin/wg-quick"@,
    ]);
    r
}

/// Shows the default route.
pub fn show_default_route() -> (r: CommandLine)
    ensures
        r@ == (CommandView {
            program: "ip"@,
            args: seq!["-o"@, "-4"@, "route"@, "show"@, "to"@, "default"@],
        }),
{
    let r: CommandLine = command("ip", vec!["-o", "-4", "route", "show", "to", "default"]);
    assert(r@.args =~= seq!["-o"@, "-4"@, "route"@, "show"@, "to"@, "default"@]);
    r
}

/// Shows the addresses of an interface.
pub fn show_addresses(interface: &str) -> (r: CommandLine)
    ensures
        r@ == (CommandView {
            program: "ip"@,
            args: seq!["-o"@, "-f"@, "inet"@, "addr"@, "show"@, interface@],
        }),
{
    let r: CommandLine = command("ip", vec!["-o", "-f", "inet", "addr", "show", interface]);
    assert(r@.args =~= seq!["-o"@, "-f"@, "inet"@, "addr"@, "show"@, interface@]);
    r
}

/// Shows the network that an address belongs to.
pub fn show_network(cidr: &str) -> (r: CommandLine)
    ensures
        r@ == (CommandView { program: "ipcalc"@, args: seq![cidr@] }),
{
    let r: CommandLine = command("ipcalc", vec![cidr]);
    assert(r@.args =~= seq![cidr@]);
    r
}

/// Starts the client anew in place of the running one.
pub fn restart() -> (r: CommandLine)
    ensures
        r@ == (CommandView { program: "/proc/self/exe"@, args: Seq::empty() }),
{
    let r: CommandLine = command("/proc/self/exe", Vec::new());
    assert(r@.args =~= Seq::empty());
    r
}

/// The command that sends the traffic for a network through a gateway.
pub open spec fn route_command(
    network: Seq<char>,
    gateway: Seq<char>,
    interface: Seq<char>,
) -> CommandView {
    CommandView {
        program: "ip"@,
        args: seq!["route"@, "add"@, network, "via"@, gateway, "dev"@, interface],
    }
}

fn add_route(network: &str, gateway: &str, interface: &str) -> (r: CommandLine)
    ensures
        r@ == route_command(network@, gateway@, interface@),
{
    let r: CommandLine = command(
        "ip",
        vec!["route", "add", network, "via", gateway, "dev", interface],
    );
    assert(r@.args =~= route_command(network@, gateway@, interface@).args);
    r
}

/// The commands that keep the traffic for the local networks out of the tunnel. The list of the
/// networks has commas between its entries.
pub fn lan_routes(networks: &str, gateway: &str, interface: &str) -> (r: Vec<CommandLine>)
    ensures
        r.deep_view() == text::pieces(networks@, ',').map_values(
            |network: Seq<char>| route_command(network, gateway@, interface@),
        ),
        r@.len() == text::pieces(networks@, ',').len(),
        forall|i: int|
            0 <= i < r@.len() ==> (#[trigger] r@[i])@.program == "ip"@ && r@[i]@.args == seq![
                "route"@,
                "add"@,
                text::pieces(networks@, ',')[i],
                "via"@,
                gateway@,
                "dev"@,
                interface@,
            ],
{
    let entries: Vec<String> = text::split(networks, ',');
    let ghost names = text::pieces(networks@, ',');
    let ghost route = |network: Seq<char>| route_command(network, gateway@, interface@);
    let mut r: Vec<CommandLine> = Vec::new();
    let mut i: usize = 0;
    while i < entries.len()
        invariant
            i <= entries@.len(),
            entries.deep_view() == names,
            route == |network: Seq<char>| route_command(network, gateway@, interface@),
            r.deep_view() == names.take(i as int).map_values(route),
        decreases entries.len() - i,
    {
        let ghost before = r.deep_view();
        assert(names[i as int] == entries@[i as int]@);
        r.push(add_route(entries[i].as_str(), gateway, interface));
        assert(r.deep_view() =~= before.push(route(names[i as int])));
        assert(names.take(i + 1).map_values(route) =~= before.push(route(names[i as int])));
        i = i + 1;
    }
    assert(names.take(i as int) =~= names);
    assert(r.deep_view().len() == r@.len());
    assert forall|k: int| 0 <= k < r@.len() implies (#[trigger] r@[k])@ == route(names[k]) by {
        assert(r.deep_view()[k] == r@[k]@);
    }
    r
}

/// The route to a local network names that network, the gateway and the interface, whatever they
/// are, and no two networks share a route.
pub proof fn law_a_route_names_its_network(
    network: Seq<char>,
    other: Seq<char>,
    gateway: Seq<char>,
    interface: Seq<char>,
)
    ensures
        route_command(network, gateway, interface).program == "ip"@,
        route_command(network, gateway, interface).args == seq![
            "route"@,
            "add"@,
            network,
            "via"@,
            gateway,
            "dev"@,
            interface,
        ],
        route_command(network, gateway, interface) == route_command(other, gateway, interface)
            ==> network == other,
{
    assert(route_command(network, gateway, interface).args[2] == network);
    assert(route_command(other, gateway, interface).args[2] == other);
}

/// The view keeps the program and every argument as it is.
pub proof fn law_the_view_of_a_command_keeps_all(line: CommandLine)
    ensures
        line.deep_view() == line@,
        line@.program == line.program@,
        line@.args == line.args.deep_view(),
{
}

} // verus!
