use pia_wireguard::firewall::{
    bypass_ports, close_network, guard_network, parse_bypass_port, BypassPort, Chain, Change, Rule,
    Target, TABLE, TUNNEL,
};

/// The change as the arguments of a call.
fn spelled(change: &Change) -> String {
    match change {
        Change::Policy { chain, target } => format!("-P {} {}", chain.name(), target.name()),
        Change::Append { chain, rule } => format!("-A {} {}", chain.name(), rule.text()),
        Change::Insert { chain, rule, position } => {
            format!("-I {} {} {}", chain.name(), position, rule.text())
        }
    }
}

#[test]
fn the_closing_plan_is_spelled_out() {
    let plan = close_network("172.17.0.0/16", "eth0", 1337);
    let lines: Vec<String> = plan.iter().map(spelled).collect();
    assert_eq!(
        lines,
        vec![
            "-P FORWARD DROP",
            "-P INPUT DROP",
            "-A INPUT -i wg0 -p udp -j ACCEPT",
            "-A INPUT -i wg0 -p tcp -j ACCEPT",
            "-A INPUT -s 172.17.0.0/16 -d 172.17.0.0/16 -j ACCEPT",
            "-A INPUT -i eth0 -p udp --sport 1337 -j ACCEPT",
            "-A INPUT -p icmp --icmp-type echo-reply -j ACCEPT",
            "-A INPUT -i lo -j ACCEPT",
            "-P OUTPUT DROP",
            "-A OUTPUT -o wg0 -p udp -j ACCEPT",
            "-A OUTPUT -o wg0 -p tcp -j ACCEPT",
            "-A OUTPUT -s 172.17.0.0/16 -d 172.17.0.0/16 -j ACCEPT",
            "-A OUTPUT -o eth0 -p udp --dport 1337 -j ACCEPT",
            "-A OUTPUT -p icmp --icmp-type echo-request -j ACCEPT",
            "-A OUTPUT -o lo -j ACCEPT",
        ]
    );
    assert_eq!(TABLE, "filter");
    assert_eq!(TUNNEL, "wg0");
}

#[test]
fn the_bypass_plan_is_spelled_out() {
    let plan = bypass_ports("8080/tcp,9000/udp", "eth0");
    let lines: Vec<String> = plan.changes.iter().map(spelled).collect();
    assert_eq!(
        lines,
        vec![
            "-I INPUT 1 -i wg0 -p tcp --dport 8080 -j DROP",
            "-A INPUT -i eth0 -p tcp --dport 8080 -j ACCEPT",
            "-I OUTPUT 1 -o wg0 -p tcp --sport 8080 -j DROP",
            "-A OUTPUT -o eth0 -p tcp --sport 8080 -j ACCEPT",
            "-I INPUT 1 -i wg0 -p udp --dport 9000 -j DROP",
            "-A INPUT -i eth0 -p udp --dport 9000 -j ACCEPT",
            "-I OUTPUT 1 -o wg0 -p udp --sport 9000 -j DROP",
            "-A OUTPUT -o eth0 -p udp --sport 9000 -j ACCEPT",
        ]
    );
    assert_eq!(plan.rejected, None);
}

#[test]
fn an_entry_without_protocol_ends_the_plan() {
    let plan = bypass_ports("8080/tcp,9000,53/udp", "eth0");
    assert_eq!(plan.changes.len(), 4);
    assert_eq!(plan.rejected, Some("9000".to_string()));
    let empty = bypass_ports("", "eth0");
    assert_eq!(empty.changes.len(), 0);
    assert_eq!(empty.rejected, Some(String::new()));
}

#[test]
fn an_entry_is_cut_at_its_first_slash() {
    assert_eq!(
        parse_bypass_port("8080/tcp"),
        Some(BypassPort { port: "8080".to_string(), protocol: "tcp".to_string() })
    );
    assert_eq!(
        parse_bypass_port("/a/b"),
        Some(BypassPort { port: String::new(), protocol: "a/b".to_string() })
    );
    assert_eq!(parse_bypass_port("8080"), None);
}

/// A packet with the properties that the rules ask for, as plain texts.
struct Packet<'a> {
    arrives: &'a str,
    leaves: &'a str,
    protocol: &'a str,
    control: &'a str,
    sport: &'a str,
    dport: &'a str,
    local: bool,
}

fn meets(asked: &Option<String>, value: &str) -> bool {
    match asked {
        Some(a) => a == value,
        None => true,
    }
}

fn matches_packet(rule: &Rule, p: &Packet) -> bool {
    (rule.source.is_none() || p.local)
        && (rule.destination.is_none() || p.local)
        && meets(&rule.in_interface, p.arrives)
        && meets(&rule.out_interface, p.leaves)
        && meets(&rule.protocol, p.protocol)
        && meets(&rule.control_type, p.control)
        && meets(&rule.source_port, p.sport)
        && meets(&rule.destination_port, p.dport)
}

/// What the chain makes of the packet after the changes.
fn verdict(changes: &[Change], wanted: Chain, p: &Packet) -> Target {
    let mut policy = Target::Accept;
    let mut rules: Vec<Rule> = Vec::new();
    for change in changes {
        match change {
            Change::Policy { chain, target } if *chain == wanted => policy = *target,
            Change::Append { chain, rule } if *chain == wanted => rules.push(rule.clone()),
            Change::Insert { chain, rule, position } if *chain == wanted => {
                rules.insert(*position as usize - 1, rule.clone())
            }
            _ => {}
        }
    }
    for rule in &rules {
        if matches_packet(rule, p) {
            return rule.target;
        }
    }
    policy
}

fn guarded() -> Vec<Change> {
    guard_network("172.17.0.0/16", "eth0", 1337, Some("8080/tcp,53/udp")).changes
}

#[test]
fn the_whole_plan_closes_the_network_and_then_opens_the_ports() {
    let mut changes = close_network("172.17.0.0/16", "eth0", 1337);
    let closed = guard_network("172.17.0.0/16", "eth0", 1337, None);
    assert_eq!(closed.changes, changes);
    assert_eq!(closed.rejected, None);
    changes.extend(bypass_ports("8080/tcp,53/udp", "eth0").changes);
    assert_eq!(guarded(), changes);
    let cut = guard_network("172.17.0.0/16", "eth0", 1337, Some("8080/tcp,53"));
    assert_eq!(cut.changes.len(), 15 + 4);
    assert_eq!(cut.rejected, Some("53".to_string()));
}

fn departing<'a>(leaves: &'a str, protocol: &'a str, sport: &'a str, dport: &'a str) -> Packet<'a> {
    Packet { arrives: "", leaves, protocol, control: "", sport, dport, local: false }
}

fn arriving<'a>(arrives: &'a str, protocol: &'a str, sport: &'a str, dport: &'a str) -> Packet<'a> {
    Packet { arrives, leaves: "", protocol, control: "", sport, dport, local: false }
}

#[test]
fn nothing_leaves_outside_the_tunnel() {
    let plan = guarded();
    let out = |p: Packet| verdict(&plan, Chain::Output, &p);
    assert_eq!(out(departing("eth0", "tcp", "40000", "443")), Target::Drop);
    assert_eq!(out(departing("eth0", "udp", "40000", "53")), Target::Drop);
    assert_eq!(out(departing("wg0", "tcp", "40000", "443")), Target::Accept);
    assert_eq!(out(departing("wg0", "udp", "40000", "443")), Target::Accept);
    assert_eq!(out(departing("wg0", "sctp", "40000", "443")), Target::Drop);
    assert_eq!(out(departing("eth0", "udp", "40000", "1337")), Target::Accept);
    assert_eq!(out(departing("lo", "tcp", "40000", "443")), Target::Accept);
    let local = Packet { local: true, ..departing("eth0", "tcp", "40000", "443") };
    assert_eq!(out(local), Target::Accept);
    let echo = Packet { control: "echo-request", ..departing("eth0", "icmp", "", "") };
    assert_eq!(out(echo), Target::Accept);
}

#[test]
fn bypassed_ports_avoid_the_tunnel() {
    let plan = guarded();
    let out = |p: Packet| verdict(&plan, Chain::Output, &p);
    let into = |p: Packet| verdict(&plan, Chain::Input, &p);
    assert_eq!(out(departing("wg0", "tcp", "8080", "443")), Target::Drop);
    assert_eq!(out(departing("eth0", "tcp", "8080", "443")), Target::Accept);
    assert_eq!(out(departing("wg0", "udp", "8080", "443")), Target::Accept);
    assert_eq!(into(arriving("wg0", "udp", "40000", "53")), Target::Drop);
    assert_eq!(into(arriving("eth0", "udp", "40000", "53")), Target::Accept);
}

#[test]
fn nothing_enters_outside_the_tunnel() {
    let plan = guarded();
    let into = |p: Packet| verdict(&plan, Chain::Input, &p);
    assert_eq!(into(arriving("eth0", "tcp", "443", "22")), Target::Drop);
    assert_eq!(into(arriving("wg0", "tcp", "443", "22")), Target::Accept);
    assert_eq!(into(arriving("eth0", "udp", "1337", "40000")), Target::Accept);
    assert_eq!(into(arriving("lo", "tcp", "443", "22")), Target::Accept);
    let echo = Packet { control: "echo-reply", ..arriving("eth0", "icmp", "", "") };
    assert_eq!(into(echo), Target::Accept);
}

#[test]
fn nothing_is_forwarded() {
    let plan = guarded();
    let p = Packet { arrives: "wg0", ..departing("eth0", "tcp", "8080", "443") };
    assert_eq!(verdict(&plan, Chain::Forward, &p), Target::Drop);
}

#[test]
fn the_words_of_a_rule_are_its_options_and_values() {
    for change in guarded() {
        if let Change::Append { rule, .. } = change {
            let text = rule.text();
            let words: Vec<&str> = text.split(' ').collect();
            assert_eq!(words[words.len() - 2], "-j");
            assert_eq!(words.len() % 2, 0);
            for pair in words.chunks(2) {
                assert!(pair[0].starts_with('-'));
                assert!(!pair[1].starts_with('-'));
            }
        }
    }
}
