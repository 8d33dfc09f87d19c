use pia_wireguard::monitor::{
    bind_url, forwarding_socket, signature_url, Action, Event, Forwarding, Monitor, Phase,
};
use pia_wireguard::signature::{BindPort, Payload, Signature};

fn signature(name: &str, status: &str) -> Signature {
    Signature {
        payload: format!("{name}-payload"),
        signature: format!("{name}-signature"),
        status: status.to_string(),
        message: None,
    }
}

fn forwarding() -> Forwarding {
    Forwarding {
        server_cn: "frankfurt1".to_string(),
        signature: signature("first", "OK"),
        payload: Payload { port: 1000, expires_at: 500 },
        connection_file: true,
        port_file: true,
    }
}

fn plain(max_attempts: u32) -> Monitor {
    Monitor::new(max_attempts, "1.1.1.1".to_string(), None)
}

fn port(max_attempts: u32) -> Monitor {
    Monitor::new(max_attempts, "1.1.1.1".to_string(), Some(forwarding()))
}

fn tell(monitor: Monitor, event: Event) -> (Monitor, Vec<Action>) {
    assert!(monitor.accepts(&event));
    monitor.step(event)
}

fn bad_health() -> Event {
    Event::Health { healthy: false }
}

fn failed() -> Event {
    Event::Reconnected { address: None }
}

fn bind_reply(status: &str) -> Event {
    Event::BindReply {
        reply: Some(BindPort { status: status.to_string(), message: String::new() }),
    }
}

fn bind_action(name: &str) -> Action {
    Action::BindPort {
        url: "https://frankfurt1:19999/bindPort".to_string(),
        payload: format!("{name}-payload"),
        signature: format!("{name}-signature"),
    }
}

#[test]
fn the_container_restarts_after_the_last_failed_attempt() {
    for start in [plain(5), port(5)] {
        let mut monitor = start;
        for attempt in 1..=5 {
            let (asked, actions) = tell(monitor, bad_health());
            assert_eq!(actions, vec![Action::Reconnect { attempt }]);
            let (told, actions) = tell(asked, failed());
            monitor = told;
            if attempt < 5 {
                assert_eq!(actions, Vec::new());
                assert_eq!(monitor.attempts, attempt);
                assert_eq!(monitor.phase, Phase::Idle);
            } else {
                assert_eq!(actions, vec![Action::Restart]);
            }
        }
        assert_eq!(monitor.phase, Phase::Stopped);
        assert!(!monitor.accepts(&bad_health()));
        assert!(!monitor.accepts(&failed()));
    }
}

#[test]
fn no_attempt_is_made_where_none_is_allowed() {
    let (monitor, actions) = tell(plain(0), bad_health());
    assert_eq!(actions, vec![Action::Restart]);
    assert_eq!(monitor.phase, Phase::Stopped);
}

#[test]
fn good_health_changes_nothing() {
    let (monitor, actions) = tell(port(5), Event::Health { healthy: true });
    assert_eq!(monitor, port(5));
    assert_eq!(actions, Vec::new());
}

#[test]
fn a_reconnection_clears_the_count_and_moves_the_address() {
    let (monitor, _) = tell(plain(5), bad_health());
    let (monitor, _) = tell(monitor, failed());
    let (monitor, actions) = tell(monitor, bad_health());
    assert_eq!(actions, vec![Action::Reconnect { attempt: 2 }]);
    let (monitor, actions) =
        tell(monitor, Event::Reconnected { address: Some("2.2.2.2".to_string()) });
    assert_eq!(actions, Vec::new());
    assert_eq!(monitor.attempts, 0);
    assert_eq!(monitor.address, "2.2.2.2");
    assert_eq!(monitor.phase, Phase::Idle);
}

#[test]
fn the_connection_file_follows_the_address() {
    let (monitor, _) = tell(port(5), bad_health());
    let (_, actions) = tell(monitor, Event::Reconnected { address: Some("2.2.2.2".to_string()) });
    assert_eq!(
        actions,
        vec![Action::WriteFile {
            path: "/config/connection.json".to_string(),
            contents: "{\"ip\":\"2.2.2.2\",\"port\":1000}".to_string(),
        }]
    );
    let quiet = Forwarding { connection_file: false, ..forwarding() };
    let monitor = Monitor::new(5, "1.1.1.1".to_string(), Some(quiet));
    let (monitor, _) = tell(monitor, bad_health());
    let (_, actions) = tell(monitor, Event::Reconnected { address: Some("2.2.2.2".to_string()) });
    assert_eq!(actions, Vec::new());
}

#[test]
fn a_valid_signature_binds_the_port() {
    let (monitor, actions) = tell(port(5), Event::RefreshDue { now: 500 });
    assert_eq!(actions, vec![bind_action("first")]);
    let (monitor, actions) = tell(monitor, bind_reply("OK"));
    assert_eq!(actions, Vec::new());
    assert_eq!(monitor, port(5));
}

#[test]
fn failed_binds_count_and_bound_ports_clear_the_count() {
    let (monitor, _) = tell(port(5), Event::RefreshDue { now: 0 });
    let (monitor, _) = tell(monitor, bind_reply("ERROR"));
    assert_eq!(monitor.attempts, 1);
    let (monitor, _) = tell(monitor, Event::RefreshDue { now: 0 });
    let (monitor, _) = tell(monitor, Event::BindReply { reply: None });
    assert_eq!(monitor.attempts, 2);
    let (monitor, _) = tell(monitor, Event::RefreshDue { now: 0 });
    let (monitor, _) = tell(monitor, bind_reply("OK"));
    assert_eq!(monitor.attempts, 0);
}

#[test]
fn an_expired_signature_is_renewed() {
    let (monitor, actions) = tell(port(5), Event::RefreshDue { now: 501 });
    assert_eq!(
        actions,
        vec![Action::FetchSignature { url: "https://frankfurt1:19999/getSignature".to_string() }]
    );
    let (monitor, actions) =
        tell(monitor, Event::SignatureReply { signature: Some(signature("second", "OK")) });
    assert_eq!(actions, vec![Action::ReadPayload { encoded: "second-payload".to_string() }]);
    let payload = Payload { port: 2000, expires_at: 900 };
    let (monitor, actions) = tell(monitor, Event::PayloadRead { payload });
    assert_eq!(
        actions,
        vec![
            Action::WriteFile {
                path: "/tmp/gluetun/forwarded_port".to_string(),
                contents: "2000".to_string(),
            },
            bind_action("second"),
        ]
    );
    let held = monitor.forwarding.as_ref().unwrap();
    assert_eq!(held.payload, payload);
    assert_eq!(held.signature, signature("second", "OK"));
    let (monitor, _) = tell(monitor, bind_reply("OK"));
    let (_, actions) = tell(monitor, Event::RefreshDue { now: 900 });
    assert_eq!(actions, vec![bind_action("second")]);
}

#[test]
fn a_refused_renewal_keeps_the_port() {
    for reply in [None, Some(signature("second", "ERROR"))] {
        let (monitor, _) = tell(port(5), Event::RefreshDue { now: 501 });
        let (monitor, actions) = tell(monitor, Event::SignatureReply { signature: reply });
        assert_eq!(actions, vec![bind_action("first")]);
        assert_eq!(monitor.forwarding, Some(forwarding()));
    }
}

#[test]
fn a_refused_renewal_at_the_limit_restarts() {
    let mut monitor = port(2);
    for _ in 0..2 {
        let (asked, _) = tell(monitor, Event::RefreshDue { now: 0 });
        let (told, _) = tell(asked, Event::BindReply { reply: None });
        monitor = told;
    }
    let (monitor, _) = tell(monitor, Event::RefreshDue { now: 501 });
    let (monitor, actions) = tell(monitor, Event::SignatureReply { signature: None });
    assert_eq!(actions, vec![Action::Restart]);
    assert_eq!(monitor.phase, Phase::Stopped);
}

#[test]
fn failed_binds_leave_fewer_attempts_to_reconnect() {
    let mut monitor = port(2);
    for _ in 0..2 {
        let (asked, _) = tell(monitor, Event::RefreshDue { now: 0 });
        let (told, _) = tell(asked, Event::BindReply { reply: None });
        monitor = told;
    }
    let (_, actions) = tell(monitor, bad_health());
    assert_eq!(actions, vec![Action::Restart]);
}

#[test]
fn a_renewal_clears_the_count() {
    let (monitor, _) = tell(port(5), Event::RefreshDue { now: 0 });
    let (monitor, _) = tell(monitor, Event::BindReply { reply: None });
    let (monitor, _) = tell(monitor, Event::RefreshDue { now: 501 });
    let (monitor, _) =
        tell(monitor, Event::SignatureReply { signature: Some(signature("second", "OK")) });
    assert_eq!(monitor.attempts, 1);
    let payload = Payload { port: 2000, expires_at: 900 };
    let (monitor, _) = tell(monitor, Event::PayloadRead { payload });
    assert_eq!(monitor.attempts, 0);
    assert_eq!(monitor.phase, Phase::AwaitingBind);
}

#[test]
fn the_count_is_that_of_the_attempts_since_the_last_success() {
    let mut monitor = port(9);
    let mut count = 0;
    for n in 0..6 {
        let (asked, _) = tell(monitor, bad_health());
        let (told, _) = tell(asked, failed());
        let (told, _) = tell(told, Event::Health { healthy: true });
        let (asked, _) = tell(told, Event::RefreshDue { now: 0 });
        let (told, _) = tell(asked, bind_reply(if n == 2 { "OK" } else { "ERROR" }));
        count = if n == 2 { 0 } else { count + 2 };
        assert_eq!(told.attempts, count);
        monitor = told;
    }
}

#[test]
fn no_more_reconnections_are_asked_for_than_allowed() {
    // A digit to base 3 is a failed reconnection, good health or a failed bind. The highest digit
    // only marks the end.
    for course in 3_u32.pow(8)..2 * 3_u32.pow(8) {
        let mut monitor = port(3);
        let (mut attempts, mut reconnections, mut rest) = (0, 0, course);
        while monitor.phase != Phase::Stopped && rest > 1 {
            match rest % 3 {
                0 => {
                    let (asked, actions) = tell(monitor, bad_health());
                    attempts += 1;
                    if actions == vec![Action::Restart] {
                        assert!(attempts > 3);
                        monitor = asked;
                        break;
                    }
                    reconnections += 1;
                    assert!(attempts <= 3);
                    let (told, _) = tell(asked, failed());
                    assert_eq!(told.phase == Phase::Stopped, attempts >= 3);
                    monitor = told;
                }
                1 => monitor = tell(monitor, Event::Health { healthy: true }).0,
                _ => {
                    let (asked, _) = tell(monitor, Event::RefreshDue { now: 0 });
                    monitor = tell(asked, bind_reply("ERROR")).0;
                    attempts += 1;
                }
            }
            rest /= 3;
        }
        assert!(reconnections <= 3);
        assert_eq!(monitor.attempts, attempts);
    }
}

#[test]
fn only_what_is_awaited_is_accepted() {
    assert!(!plain(5).accepts(&Event::RefreshDue { now: 0 }));
    assert!(port(5).accepts(&Event::RefreshDue { now: 0 }));
    assert!(!port(5).accepts(&bind_reply("OK")));
    assert!(!port(5).accepts(&failed()));
    let (busy, _) = tell(port(5), bad_health());
    assert!(!busy.accepts(&bad_health()));
    assert!(!busy.accepts(&Event::RefreshDue { now: 0 }));
    assert!(busy.accepts(&failed()));
    let full = Monitor { attempts: u32::MAX, ..port(5) };
    assert!(!full.accepts(&bad_health()));
    assert!(full.accepts(&Event::Health { healthy: true }));
    let (binding, _) = tell(full, Event::RefreshDue { now: 0 });
    assert!(binding.accepts(&bind_reply("OK")));
    assert!(!binding.accepts(&bind_reply("ERROR")));
    assert!(!binding.accepts(&Event::BindReply { reply: None }));
}

#[test]
fn services_have_their_addresses() {
    assert_eq!(signature_url("cn"), "https://cn:19999/getSignature");
    assert_eq!(bind_url("cn"), "https://cn:19999/bindPort");
    assert_eq!(forwarding_socket("10.4.128.1"), "10.4.128.1:19999");
}
