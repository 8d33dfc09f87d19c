use pia_wireguard::signature::{
    bind_line, check_signature, connection_json, payload_of, read_bytes, read_payload,
    refusal_text, signature_source, startup_files, BindPort, FileKind, FileSettings, FileWrite,
    Payload, PayloadError, Signature, SignatureSource,
};

fn signature(status: &str, message: Option<&str>) -> Signature {
    Signature {
        payload: "eyJwb3J0IjoxMjM0fQ==".to_string(),
        signature: "c2ln".to_string(),
        status: status.to_string(),
        message: message.map(|m| m.to_string()),
    }
}

#[test]
fn a_payload_is_read_from_base64() {
    assert_eq!(read_payload("eyJwb3J0IjoxMjM0fQ=="), Ok("{\"port\":1234}".to_string()));
    assert_eq!(read_payload(&base64::encode("\u{e9}t\u{e9}")), Ok("\u{e9}t\u{e9}".to_string()));
    assert_eq!(read_payload(""), Ok(String::new()));
}

#[test]
fn a_payload_can_be_unreadable() {
    assert_eq!(read_payload("not base64!"), Err(PayloadError::NotBase64));
    assert_eq!(read_payload(&base64::encode([0xff, 0xfe])), Err(PayloadError::NotUtf8));
    assert_eq!(payload_of(1, "tomorrow"), Err(PayloadError::NoTime));
}

#[test]
fn bytes_are_read_as_utf8() {
    assert_eq!(read_bytes(&[0x7b, 0x7d]), Ok("{}".to_string()));
    assert_eq!(read_bytes(&[0xe2, 0x82, 0xac]), Ok("\u{20ac}".to_string()));
    assert_eq!(read_bytes(&[0xc0, 0x80]), Err(PayloadError::NotUtf8));
    assert_eq!(read_bytes(&[0xed, 0xa0, 0x80]), Err(PayloadError::NotUtf8));
}

#[test]
fn times_are_seconds_in_utc() {
    let expected = Payload { port: 1234, expires_at: 1_700_000_000 };
    assert_eq!(payload_of(1234, "2023-11-14T22:13:20Z"), Ok(expected));
    assert_eq!(payload_of(1234, "2023-11-14T22:13:20.999999999Z"), Ok(expected));
    assert_eq!(payload_of(1234, "2023-11-15T00:13:20+02:00"), Ok(expected));
    assert_eq!(payload_of(1234, "1969-12-31T23:59:59Z").unwrap().expires_at, -1);
}

#[test]
fn a_grant_runs_out_after_its_time() {
    let payload = Payload { port: 1, expires_at: 100 };
    assert!(!payload.expired(99));
    assert!(!payload.expired(100));
    assert!(payload.expired(101));
}

#[test]
fn only_ok_grants() {
    assert_eq!(check_signature(&signature("OK", None)), Ok(()));
    assert_eq!(
        check_signature(&signature("ERROR", Some("no port"))),
        Err(Some("no port".to_string()))
    );
    assert_eq!(check_signature(&signature("ok", None)), Err(None));
    assert!(signature("OK", None).granted());
    assert!(!signature("OK ", None).granted());
    let bind = |status: &str| BindPort { status: status.to_string(), message: String::new() };
    assert!(bind("OK").granted());
    assert!(!bind("ERROR").granted());
    assert_eq!(refusal_text("no port"), "[ERROR] Failed to get signature: no port");
    assert_eq!(signature("OK", Some("m")).clone(), signature("OK", Some("m")));
}

#[test]
fn a_saved_signature_is_used_where_ports_persist() {
    assert_eq!(signature_source(true, true), SignatureSource::Saved);
    assert_eq!(signature_source(true, false), SignatureSource::Server);
    assert_eq!(signature_source(false, true), SignatureSource::Server);
    assert_eq!(signature_source(false, false), SignatureSource::Server);
}

#[test]
fn the_connection_file_is_json() {
    assert_eq!(connection_json(1234, "127.0.0.1"), "{\"ip\":\"127.0.0.1\",\"port\":1234}");
    let mut all = String::new();
    for n in 0..0x300_u32 {
        all.push(char::from_u32(n).unwrap());
    }
    all.push('\u{1f600}');
    for (port, ip) in [(1234, "127.0.0.1"), (-1, ""), (0, "<a \"b\" \\ c>\n"), (65535, all.as_str())]
    {
        let mut object = serde_json::Map::new();
        object.insert("port".to_string(), serde_json::Value::from(port));
        object.insert("ip".to_string(), serde_json::Value::from(ip));
        assert_eq!(connection_json(port, ip), serde_json::Value::Object(object).to_string());
    }
}

fn settings<'a>(
    connection_file: Option<&'a str>,
    persist_port: bool,
    port_manager: Option<&'a str>,
    port_path: Option<&'a str>,
) -> FileSettings<'a> {
    FileSettings { connection_file, persist_port, port_manager, port_path }
}

fn file(kind: FileKind, path: &str, contents: &str, make_parents: bool) -> FileWrite {
    FileWrite { kind, path: path.to_string(), contents: contents.to_string(), make_parents }
}

#[test]
fn the_user_reads_of_every_file() {
    let told = |kind| {
        let written = file(kind, "/a/b", "", false);
        (written.saved(), written.unsaved())
    };
    assert_eq!(
        told(FileKind::Connection),
        (
            "[INFO] Connection data saved to /a/b".to_string(),
            "[ERROR] failed to save connection data to file"
        )
    );
    assert_eq!(
        told(FileKind::Signature),
        (
            "[INFO] Port signature saved to /a/b".to_string(),
            "[ERROR] failed to save port signature to file"
        )
    );
    assert_eq!(
        told(FileKind::Port),
        (
            "[INFO] Forwarded port written to /a/b".to_string(),
            "[ERROR] failed to write forwarded port file"
        )
    );
}

#[test]
fn the_user_reads_of_every_request_to_bind() {
    let reply =
        |status: &str| BindPort { status: status.to_string(), message: "expired".to_string() };
    assert_eq!(bind_line(Some(&reply("OK")), 4242), "[INFO] Port 4242 bound successfully");
    assert_eq!(bind_line(Some(&reply("ERROR")), 4242), "[WARN] Failed to bind port: expired");
    assert_eq!(bind_line(None, 4242), "[WARN] Could not reach PIA API for port binding");
}

#[test]
fn all_wanted_files_are_written_in_order() {
    let all = startup_files(
        &settings(Some("true"), true, Some("true"), None),
        4242,
        "10.1.2.3",
        "{\"status\":\"OK\"}",
    );
    assert_eq!(
        all.writes,
        vec![
            file(FileKind::Connection, "/config/connection.json", "{\"ip\":\"10.1.2.3\",\"port\":4242}", false),
            file(FileKind::Signature, "/config/signature.json", "{\"status\":\"OK\"}", false),
            file(FileKind::Port, "/tmp/gluetun/forwarded_port", "4242", true),
        ]
    );
    assert_eq!((all.connection_file, all.port_file), (Some(true), Some(true)));
}

#[test]
fn no_file_is_written_unasked() {
    let none = startup_files(&settings(None, false, None, Some("/x")), 1, "ip", "sig");
    assert_eq!(none.writes, Vec::new());
    assert_eq!((none.connection_file, none.port_file), (Some(false), Some(false)));
}

#[test]
fn the_port_file_can_be_elsewhere() {
    let moved =
        startup_files(&settings(None, false, Some("true"), Some("/tmp/pia/port")), 7, "ip", "sig");
    assert_eq!(moved.writes, vec![file(FileKind::Port, "/tmp/pia/port", "7", true)]);
}

#[test]
fn unreadable_settings_are_reported() {
    let first = startup_files(&settings(Some("yes"), true, Some("true"), None), 1, "ip", "sig");
    assert_eq!(first.writes, Vec::new());
    assert_eq!(first.connection_file, None);
    let second = startup_files(&settings(Some("true"), true, Some("yes"), None), 1, "ip", "sig");
    assert_eq!(second.writes.len(), 2);
    assert_eq!(second.port_file, None);
}
