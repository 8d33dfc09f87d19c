use pia_wireguard::health::LinkQuery;
use pia_wireguard::reconnect::{
    look_line, reconnect_vpn, Progress, Reconnection, Stage, Task, VpnState,
};
use pia_wireguard::servers::{IpAddr, ServerDetails};

fn vpn() -> VpnState {
    let server = ServerDetails { ip: IpAddr::V4([212, 102, 57, 1]), cn: "frankfurt1".to_string() };
    VpnState::new(&server, "token".to_string(), 1337).unwrap()
}

fn tell(r: &mut Reconnection, progress: Progress) -> Vec<Task> {
    assert!(r.accepts(&progress));
    r.step(&vpn(), progress)
}

fn down() -> Progress {
    Progress::LinkSeen { query: LinkQuery::Missing }
}

fn up() -> Progress {
    Progress::LinkSeen { query: LinkQuery::Found { up: true } }
}

#[test]
fn a_connection_needs_a_socket_address() {
    assert_eq!(vpn().socket(), "212.102.57.1:1337");
    assert_eq!(vpn().server_cn(), "frankfurt1");
    assert_eq!(vpn().token(), "token");
    let server = ServerDetails { ip: IpAddr::V6([0; 8]), cn: "x".to_string() };
    assert_eq!(VpnState::new(&server, String::new(), 1337), None);
}

#[test]
fn a_reconnection_goes_through() {
    let (mut r, tasks) = reconnect_vpn();
    match &tasks[..] {
        [Task::StopTunnel { command }, Task::Sleep { secs: 2 }, Task::FetchCertificate] => {
            assert_eq!(command.program, "wg-quick");
            assert_eq!(command.args, vec!["down", "/config/wg0.conf"]);
        }
        _ => panic!("{tasks:?}"),
    }
    assert_eq!(
        tell(&mut r, Progress::CertificateFetched),
        vec![Task::RequestConfig {
            server_cn: "frankfurt1".to_string(),
            token: "token".to_string(),
            port: 1337,
            socket: "212.102.57.1:1337".to_string(),
        }]
    );
    let tasks = tell(&mut r, Progress::ConfigReceived);
    match &tasks[..] {
        [Task::WriteConfig { path }, Task::StartTunnel { command }, Task::QueryLink { attempt: 1 }] => {
            assert_eq!(path, "/config/wg0.conf");
            assert_eq!(command.args, vec!["up", "/config/wg0.conf"]);
        }
        _ => panic!("{tasks:?}"),
    }
    assert_eq!(
        tell(&mut r, down()),
        vec![Task::Sleep { secs: 1 }, Task::QueryLink { attempt: 2 }]
    );
    assert_eq!(tell(&mut r, up()), vec![Task::Sleep { secs: 3 }, Task::FetchAddress]);
    assert_eq!(
        tell(&mut r, Progress::AddressFetched { address: " 2.2.2.2 \n".to_string() }),
        vec![Task::Connected { address: " 2.2.2.2".to_string() }]
    );
    assert_eq!(r.stage, Stage::Finished);
    assert!(!r.accepts(&Progress::Failed));
}

#[test]
fn a_link_that_stays_down_is_looked_at_thirty_times() {
    let (mut r, _) = reconnect_vpn();
    tell(&mut r, Progress::CertificateFetched);
    tell(&mut r, Progress::ConfigReceived);
    let mut waited = 2;
    for n in 1..=30 {
        assert_eq!(r.stage, Stage::Link { attempt: n });
        let query = match n % 3 {
            0 => LinkQuery::Failed,
            1 => LinkQuery::Missing,
            _ => LinkQuery::Found { up: false },
        };
        for task in tell(&mut r, Progress::LinkSeen { query }) {
            if let Task::Sleep { secs } = task {
                waited += secs;
            }
        }
    }
    assert_eq!(r.stage, Stage::Address);
    assert_eq!(waited, 35);
}

#[test]
fn the_user_reads_of_every_fifth_look() {
    let found = LinkQuery::Found { up: true };
    assert_eq!(look_line(found, 3).unwrap(), "[INFO] WireGuard interface is up");
    assert_eq!(look_line(found, 5).unwrap(), "[INFO] WireGuard interface is up");
    let waited: Vec<String> =
        (1..=30).filter_map(|n| look_line(LinkQuery::Found { up: false }, n)).collect();
    assert_eq!(waited.len(), 6);
    assert_eq!(waited[0], "[INFO] Waiting for WireGuard interface... (5/30)");
    assert_eq!(waited[5], "[INFO] Waiting for WireGuard interface... (30/30)");
    assert_eq!(look_line(LinkQuery::Missing, 4), None);
}

#[test]
fn failures_end_a_reconnection() {
    let (mut r, _) = reconnect_vpn();
    assert_eq!(tell(&mut r, Progress::Failed), vec![Task::GiveUp]);
    assert_eq!(r.stage, Stage::Finished);
    for stage in [Stage::Config, Stage::Address] {
        let mut r = Reconnection { stage };
        assert_eq!(tell(&mut r, Progress::Failed), vec![Task::GiveUp]);
        assert_eq!(r.stage, Stage::Finished);
    }
}

#[test]
fn a_reconnection_is_told_only_what_it_awaits() {
    let (r, _) = reconnect_vpn();
    assert!(!r.accepts(&Progress::ConfigReceived));
    assert!(!r.accepts(&up()));
    assert!(!r.accepts(&Progress::AddressFetched { address: String::new() }));
    let link = Reconnection { stage: Stage::Link { attempt: 1 } };
    assert!(link.accepts(&up()));
    assert!(!link.accepts(&Progress::Failed));
    assert!(!link.accepts(&Progress::CertificateFetched));
    assert!(!Reconnection { stage: Stage::Link { attempt: 31 } }.accepts(&up()));
}
