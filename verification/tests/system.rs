use pia_wireguard::command::{
    lan_routes, patch_wireguard, restart, show_addresses, show_default_route, show_network,
    start_wireguard, stop_wireguard, CommandLine,
};
use pia_wireguard::health::{
    address_warning, await_link, check_health, check_vpn_connection, check_wireguard_interface,
    link_warning, HealthReport, LinkQuery, LinkWait,
};
use pia_wireguard::route::{
    find_cidr, network_cidr, read_default_route, settle_search, DefaultRoute, RouteError,
};
use pia_wireguard::settings::{flag, health_check_interval, max_reconnect_attempts};

fn line(program: &str, args: &[&str]) -> CommandLine {
    CommandLine {
        program: program.to_string(),
        args: args.iter().map(|a| a.to_string()).collect(),
    }
}

#[test]
fn commands_are_spelled_out() {
    assert_eq!(stop_wireguard(), line("wg-quick", &["down", "/config/wg0.conf"]));
    assert_eq!(start_wireguard(), line("wg-quick", &["up", "/config/wg0.conf"]));
    assert_eq!(
        patch_wireguard(),
        line("sed", &["-i", r"/net\.ipv4\.conf\.all\.src_valid_mark/d", "/usr/bin/wg-quick"])
    );
    assert_eq!(
        show_default_route(),
        line("ip", &["-o", "-4", "route", "show", "to", "default"])
    );
    assert_eq!(
        show_addresses("eth0"),
        line("ip", &["-o", "-f", "inet", "addr", "show", "eth0"])
    );
    assert_eq!(show_network("172.17.0.2/16"), line("ipcalc", &["172.17.0.2/16"]));
    assert_eq!(restart(), line("/proc/self/exe", &[]));
}

#[test]
fn each_local_network_gets_a_route() {
    assert_eq!(
        lan_routes("192.168.90.0/24,10.0.0.0/8", "172.17.0.1", "eth0"),
        vec![
            line("ip", &["route", "add", "192.168.90.0/24", "via", "172.17.0.1", "dev", "eth0"]),
            line("ip", &["route", "add", "10.0.0.0/8", "via", "172.17.0.1", "dev", "eth0"]),
        ]
    );
    assert_eq!(lan_routes("", "g", "i"), vec![line("ip", &["route", "add", "", "via", "g", "dev", "i"])]);
}

#[test]
fn the_default_route_is_read() {
    assert_eq!(
        read_default_route("default via 172.17.0.1 dev eth0 \n"),
        Some(DefaultRoute { gateway: "172.17.0.1".to_string(), interface: "eth0".to_string() })
    );
    assert_eq!(read_default_route("default via 172.17.0.1 dev"), None);
    assert_eq!(read_default_route(""), None);
    assert_eq!(
        read_default_route("default  via 172.17.0.1 dev eth0").unwrap().interface,
        "dev"
    );
}

#[test]
fn a_network_is_found() {
    let output = "2: eth0    inet 172.17.0.2/16 brd 172.17.255.255 scope global eth0";
    assert_eq!(find_cidr(output), Ok("172.17.0.2/16".to_string()));
    assert_eq!(find_cidr("1234.5.6.7/8"), Ok("234.5.6.7/8".to_string()));
    assert_eq!(find_cidr("10.0.0.1/240"), Ok("10.0.0.1/24".to_string()));
    assert_eq!(find_cidr("10.0.0.1"), Err(RouteError::NoNetwork));
    assert_eq!(find_cidr("10.0.1/24"), Err(RouteError::NoNetwork));
}

#[test]
fn the_network_stands_in_the_second_line() {
    let output = "Address:\t172.17.0.2/16\nNetwork:\t172.17.0.0/16\nNetmask:\t255.255.0.0 = 16\n";
    assert_eq!(network_cidr(output), Ok("172.17.0.0/16".to_string()));
    assert_eq!(network_cidr("1.2.3.4/5\n<6.7.8.9/10>\n"), Ok("6.7.8.9/10".to_string()));
    assert_eq!(network_cidr("a\n1.2.3.\n4/5"), Err(RouteError::NoNetwork));
    assert_eq!(network_cidr("172.17.0.0/16"), Err(RouteError::NoLine));
    assert_eq!(network_cidr("172.17.0.0/16\n"), Err(RouteError::NoNetwork));
}

#[test]
fn a_search_is_settled() {
    assert_eq!(settle_search(Some(Some("a".to_string()))), Ok("a".to_string()));
    assert_eq!(settle_search(Some(None)), Err(RouteError::NoNetwork));
    assert_eq!(settle_search(None), Err(RouteError::BadPattern));
}

#[test]
fn the_interface_must_be_up() {
    assert!(check_wireguard_interface(LinkQuery::Found { up: true }));
    assert!(!check_wireguard_interface(LinkQuery::Found { up: false }));
    assert!(!check_wireguard_interface(LinkQuery::Missing));
    assert!(!check_wireguard_interface(LinkQuery::Failed));
}

#[test]
fn the_address_must_be_the_expected_one() {
    assert!(check_vpn_connection("1.2.3.4", Some("1.2.3.4\n")));
    assert!(check_vpn_connection(" 1.2.3.4", Some("1.2.3.4")));
    assert!(!check_vpn_connection("1.2.3.4", Some("1.2.3.5")));
    assert!(!check_vpn_connection("1.2.3.4", None));
    assert!(!check_vpn_connection("", None));
}

#[test]
fn health_needs_the_interface_and_the_address() {
    let up = LinkQuery::Found { up: true };
    let good = check_health(up, "1.2.3.4", Some("1.2.3.4\n"));
    assert_eq!(good, HealthReport { wireguard_up: true, address_correct: true });
    assert!(good.healthy());
    assert!(!check_health(LinkQuery::Missing, "1.2.3.4", Some("1.2.3.4")).healthy());
    assert!(!check_health(up, "1.2.3.4", None).healthy());
    assert!(!check_health(up, "1.2.3.4", Some("5.6.7.8")).healthy());
}

#[test]
fn an_interface_that_is_not_yet_up_is_waited_for() {
    assert_eq!(await_link(LinkQuery::Found { up: true }), LinkWait::Up);
    assert_eq!(await_link(LinkQuery::Found { up: false }), LinkWait::Wait { secs: 1 });
    assert_eq!(await_link(LinkQuery::Missing), LinkWait::Missing);
    assert_eq!(await_link(LinkQuery::Failed), LinkWait::Failed);
}

#[test]
fn the_user_reads_of_an_interface_that_cannot_be_looked_at() {
    assert_eq!(link_warning(LinkQuery::Found { up: false }, "x"), None);
    assert_eq!(
        link_warning(LinkQuery::Missing, "x").unwrap(),
        "[WARN] WireGuard interface wg0 not found"
    );
    assert_eq!(
        link_warning(LinkQuery::Failed, "no permission").unwrap(),
        "[WARN] Error checking wg0 interface: no permission"
    );
}

#[test]
fn the_user_reads_of_every_fault() {
    assert_eq!(address_warning("1.2.3.4", Some("1.2.3.4\n")), None);
    assert_eq!(
        address_warning("1.2.3.4", Some("5.6.7.8\n")).unwrap(),
        "[WARN] IP changed! Expected: 1.2.3.4, Current: 5.6.7.8\n"
    );
    assert_eq!(
        address_warning("1.2.3.4", None).unwrap(),
        "[WARN] Could not fetch current IP - connection may be down"
    );
    let good = HealthReport { wireguard_up: true, address_correct: true };
    assert_eq!(good.alert(), Vec::<String>::new());
    let bad = HealthReport { wireguard_up: true, address_correct: false };
    assert_eq!(
        bad.alert(),
        vec![
            "[ALERT] VPN connection issue detected!",
            "  - WireGuard up: true",
            "  - VPN IP correct: false",
        ]
    );
}

#[test]
fn settings_have_defaults() {
    assert_eq!(health_check_interval(None), Some(60));
    assert_eq!(max_reconnect_attempts(None), Some(5));
    assert_eq!(flag(None, true), Some(true));
    assert_eq!(flag(None, false), Some(false));
}

#[test]
fn settings_are_read() {
    assert_eq!(health_check_interval(Some("300")), Some(300));
    assert_eq!(health_check_interval(Some("5m")), None);
    assert_eq!(health_check_interval(Some("0")), None);
    assert_eq!(health_check_interval(Some("1")), Some(1));
    assert_eq!(max_reconnect_attempts(Some("0")), Some(0));
    assert_eq!(max_reconnect_attempts(Some("10")), Some(10));
    assert_eq!(max_reconnect_attempts(Some("4294967296")), None);
    assert_eq!(flag(Some("false"), true), Some(false));
    assert_eq!(flag(Some("true"), false), Some(true));
    assert_eq!(flag(Some("no"), true), None);
}
