//! Forwarded ports: the signature that grants one, what the signature says, and the files that
//! other programs read.

use vstd::prelude::*;

use crate::outside;
use crate::settings;
use crate::text;

verus! {

/// The status of an answer that grants what was asked for.
pub const GRANTED: &'static str = "OK";

/// The file that holds the signature between two runs.
pub const SIGNATURE_FILE: &'static str = "/config/signature.json";

/// The file that tells other programs the address and the port.
pub const CONNECTION_FILE: &'static str = "/config/connection.json";

/// The file that tells other programs the port.
pub const PORT_FILE: &'static str = "/tmp/gluetun/forwarded_port";

/// The answer to a request for a port.
#[derive(Debug, PartialEq, Eq)]
pub struct Signature {
    pub payload: String,
    pub signature: String,
    pub status: String,
    pub message: Option<String>,
}

/// A `Signature` with its texts as sequences of characters.
pub struct SignatureView {
    pub payload: Seq<char>,
    pub signature: Seq<char>,
    pub status: Seq<char>,
    pub message: Option<Seq<char>>,
}

impl View for Signature {
    type V = SignatureView;

    open spec fn view(&self) -> SignatureView {
        SignatureView {
            payload: self.payload@,
            signature: self.signature@,
            status: self.status@,
            message: self.message.deep_view(),
        }
    }
}

/// What a signature grants: a port, until a time in seconds since the start of 1970.
#[derive(Debug, Clone, Copy, PartialEq, Eq, Structural)]
pub struct Payload {
    pub port: i32,
    pub expires_at: i64,
}

/// The answer to a request to bind a port.
#[derive(Debug, Clone, PartialEq, Eq)]
pub struct BindPort {
    pub status: String,
    pub message: String,
}

/// Why the payload of a signature cannot be read.
#[derive(Debug, Clone, Copy, PartialEq, Eq, Structural)]
pub enum PayloadError {
    NotBase64,
    NotUtf8,
    NoTime,
}

/// Where the first signature comes from.
#[derive(Debug, Clone, Copy, PartialEq, Eq, Structural)]
pub enum SignatureSource {
    /// The file that an earlier run left behind.
    Saved,
    /// The server.
    Server,
}

/// Where the first signature comes from: the file, where ports are to persist and there is one.
pub fn signature_source(persist_port: bool, saved: bool) -> (r: SignatureSource)
    ensures
        r == (if persist_port && saved {
            SignatureSource::Saved
        } else {
            SignatureSource::Server
        }),
{
    if persist_port && saved {
        SignatureSource::Saved
    } else {
        SignatureSource::Server
    }
}

impl Signature {
    /// Whether the server granted a port.
    pub fn granted(&self) -> (r: bool)
        ensures
            r == (self@.status == GRANTED@),
            r == (self.status@ == "OK"@),
    {
        text::same_text(self.status.as_str(), GRANTED)
    }
}

impl Clone for Signature {
    fn clone(&self) -> (r: Signature)
        ensures
            r@ == self@,
    {
        Signature {
            payload: self.payload.clone(),
            signature: self.signature.clone(),
            status: self.status.clone(),
            message: match &self.message {
                Some(m) => Some(m.clone()),
                None => None,
            },
        }
    }
}

impl BindPort {
    /// Whether the server bound the port.
    pub fn granted(&self) -> (r: bool)
        ensures
            r == (self.status@ == GRANTED@),
            r == (self.status@ == "OK"@),
    {
        text::same_text(self.status.as_str(), GRANTED)
    }
}

/// What the user reads of the answer to a request to bind a port.
pub open spec fn bind_text(status: Option<Seq<char>>, message: Seq<char>, port: int) -> Seq<char> {
    match status {
        Some(s) => if s == GRANTED@ {
            "[INFO] Port "@ + text::decimal(port) + " bound successfully"@
        } else {
            "[WARN] Failed to bind port: "@ + message
        },
        None => "[WARN] Could not reach PIA API for port binding"@,
    }
}

/// What the user reads of the answer to a request to bind a port, where one came.
pub fn bind_line(reply: Option<&BindPort>, port: i32) -> (r: String)
    ensures
        r@ == (match reply {
            Some(b) => bind_text(Some(b.status@), b.message@, port as int),
            None => bind_text(None, Seq::empty(), port as int),
        }),
{
    match reply {
        Some(b) => if b.granted() {
            "[INFO] Port ".to_owned().concat(text::write_decimal(port).as_str()).concat(
                " bound successfully",
            )
        } else {
            "[WARN] Failed to bind port: ".to_owned().concat(b.message.as_str())
        },
        None => "[WARN] Could not reach PIA API for port binding".to_owned(),
    }
}

/// Accepts a signature that grants a port. Of one that does not, the message of the server is
/// returned, where it sent one.
pub fn check_signature(signature: &Signature) -> (r: Result<(), Option<String>>)
    ensures
        match r {
            Ok(_) => signature@.status == GRANTED@,
            Err(message) => signature@.status != GRANTED@ && message.deep_view()
                == signature@.message,
        },
        r is Ok <==> signature.status@ == "OK"@,
{
    if signature.granted() {
        Ok(())
    } else {
        Err(
            match &signature.message {
                Some(m) => Some(m.clone()),
                None => None,
            },
        )
    }
}

/// What the user reads of a signature that grants no port.
pub fn refusal_text(message: &str) -> (r: String)
    ensures
        r@ == "[ERROR] Failed to get signature: "@ + message@,
{
    "[ERROR] Failed to get signature: ".to_owned().concat(message)
}

/// The text that the bytes of a payload hold.
pub open spec fn bytes_text(bytes: Seq<u8>) -> Result<Seq<char>, PayloadError> {
    if vstd::utf8::valid_utf8(bytes) {
        Ok(vstd::utf8::decode_utf8(bytes))
    } else {
        Err(PayloadError::NotUtf8)
    }
}

/// Reads the text that the bytes of a payload hold.
pub fn read_bytes(bytes: &[u8]) -> (r: Result<String, PayloadError>)
    ensures
        match r {
            Ok(t) => bytes_text(bytes@) == Ok::<Seq<char>, PayloadError>(t@),
            Err(e) => bytes_text(bytes@) == Err::<Seq<char>, PayloadError>(e),
        },
{
    match core::str::from_utf8(bytes) {
        Ok(t) => Ok(t.to_owned()),
        Err(_) => Err(PayloadError::NotUtf8),
    }
}

/// Reads the JSON text that the payload of a signature holds in Base64.
pub fn read_payload(encoded: &str) -> (r: Result<String, PayloadError>)
    ensures
        match outside::base64_bytes(encoded@) {
            Some(bytes) => match r {
                Ok(t) => bytes_text(bytes) == Ok::<Seq<char>, PayloadError>(t@),
                Err(e) => bytes_text(bytes) == Err::<Seq<char>, PayloadError>(e),
            },
            None => r == Err::<String, PayloadError>(PayloadError::NotBase64),
        },
{
    match outside::base64_decode(encoded) {
        Ok(bytes) => read_bytes(bytes.as_slice()),
        Err(_) => Err(PayloadError::NotBase64),
    }
}

/// What a signature grants, from the members of its payload.
pub fn payload_of(port: i32, expires_at: &str) -> (r: Result<Payload, PayloadError>)
    ensures
        r == (match outside::timestamp_of(expires_at@) {
            Some(seconds) => Ok(Payload { port, expires_at: seconds }),
            None => Err(PayloadError::NoTime),
        }),
{
    match outside::utc_timestamp(expires_at) {
        Ok(seconds) => Ok(Payload { port, expires_at: seconds }),
        Err(_) => Err(PayloadError::NoTime),
    }
}

impl Payload {
    /// Whether the grant has run out at a time in seconds since the start of 1970.
    pub open spec fn has_expired(self, now: int) -> bool {
        self.expires_at < now
    }

    /// Whether the grant has run out at a time in seconds since the start of 1970.
    pub fn expired(&self, now: i64) -> (r: bool)
        ensures
            r == self.has_expired(now as int),
            r == (self.expires_at < now),
    {
        self.expires_at < now
    }
}

/// The contents of the connection file: a JSON object with the address and the port.
pub open spec fn connection_text(port: int, ip: Seq<char>) -> Seq<char> {
    "{\"ip\":"@ + outside::json_string(ip) + ",\"port\":"@ + text::decimal(port) + "}"@
}

/// Writes the contents of the connection file.
pub fn connection_json(port: i32, ip: &str) -> (r: String)
    ensures
        r@ == connection_text(port as int, ip@),
{
    "{\"ip\":".to_owned().concat(outside::write_json_string(ip).as_str()).concat(
        ",\"port\":",
    ).concat(text::write_decimal(port).as_str()).concat("}")
}

/// What a file tells.
#[derive(Debug, Clone, Copy, PartialEq, Eq, Structural)]
pub enum FileKind {
    /// The address and the port.
    Connection,
    /// The signature.
    Signature,
    /// The port.
    Port,
}

/// What the user reads before the path of a file that was written.
pub open spec fn saved_prefix(kind: FileKind) -> Seq<char> {
    match kind {
        FileKind::Connection => "[INFO] Connection data saved to "@,
        FileKind::Signature => "[INFO] Port signature saved to "@,
        FileKind::Port => "[INFO] Forwarded port written to "@,
    }
}

/// What the user reads of a file that could not be written.
pub open spec fn unsaved_text(kind: FileKind) -> Seq<char> {
    match kind {
        FileKind::Connection => "[ERROR] failed to save connection data to file"@,
        FileKind::Signature => "[ERROR] failed to save port signature to file"@,
        FileKind::Port => "[ERROR] failed to write forwarded port file"@,
    }
}

/// A file to be written.
#[derive(Debug, Clone, PartialEq, Eq)]
pub struct FileWrite {
    pub kind: FileKind,
    pub path: String,
    pub contents: String,
    /// Whether the directories above the file are made first.
    pub make_parents: bool,
}

impl FileWrite {
    /// What the user reads when the file was written.
    pub fn saved(&self) -> (r: String)
        ensures
            r@ == saved_prefix(self.kind) + self.path@,
    {
        let prefix: &'static str = match self.kind {
            FileKind::Connection => "[INFO] Connection data saved to ",
            FileKind::Signature => "[INFO] Port signature saved to ",
            FileKind::Port => "[INFO] Forwarded port written to ",
        };
        prefix.to_owned().concat(self.path.as_str())
    }

    /// What the user reads when the file could not be written.
    pub fn unsaved(&self) -> (r: &'static str)
        ensures
            r@ == unsaved_text(self.kind),
    {
        match self.kind {
            FileKind::Connection => "[ERROR] failed to save connection data to file",
            FileKind::Signature => "[ERROR] failed to save port signature to file",
            FileKind::Port => "[ERROR] failed to write forwarded port file",
        }
    }
}

/// A `FileWrite` with its texts as sequences of characters.
pub struct FileView {
    pub kind: FileKind,
    pub path: Seq<char>,
    pub contents: Seq<char>,
    pub make_parents: bool,
}

impl View for FileWrite {
    type V = FileView;

    open spec fn view(&self) -> FileView {
        FileView {
            kind: self.kind,
            path: self.path@,
            contents: self.contents@,
            make_parents: self.make_parents,
        }
    }
}

impl DeepView for FileWrite {
    type V = FileView;

    open spec fn deep_view(&self) -> FileView {
        self.view()
    }
}

/// The settings for the files, each as text where it is given. Whether the signature is kept has
/// been read before.
pub struct FileSettings<'a> {
    pub connection_file: Option<&'a str>,
    pub persist_port: bool,
    pub port_manager: Option<&'a str>,
    pub port_path: Option<&'a str>,
}

/// The files that are written when a port has been granted.
#[derive(Debug, Clone, PartialEq, Eq)]
pub struct StartupFiles {
    /// The files, in order.
    pub writes: Vec<FileWrite>,
    /// Whether the connection file is kept, where that setting can be read.
    pub connection_file: Option<bool>,
    /// Whether the port file is kept, where that setting can be read.
    pub port_file: Option<bool>,
}

/// One file, where it is wanted.
pub open spec fn file_if(wanted: bool, file: FileView) -> Seq<FileView> {
    if wanted {
        seq![file]
    } else {
        Seq::empty()
    }
}

/// The files that are written when a port has been granted: the connection file, the signature and
/// the port file, as far as they are wanted. Where it cannot be read whether the connection file
/// is wanted, none is written.
pub open spec fn startup_writes(
    connection_file: Option<bool>,
    persist_port: bool,
    port_file: Option<bool>,
    port_path: Option<Seq<char>>,
    port: int,
    ip: Seq<char>,
    signature: Seq<char>,
) -> Seq<FileView> {
    if connection_file is None {
        Seq::empty()
    } else {
        file_if(
            connection_file->0,
            FileView {
                kind: FileKind::Connection,
                path: CONNECTION_FILE@,
                contents: connection_text(port, ip),
                make_parents: false,
            },
        ) + file_if(
            persist_port,
            FileView {
                kind: FileKind::Signature,
                path: SIGNATURE_FILE@,
                contents: signature,
                make_parents: false,
            },
        ) + file_if(
            port_file == Some(true),
            FileView {
                kind: FileKind::Port,
                path: match port_path {
                    Some(p) => p,
                    None => PORT_FILE@,
                },
                contents: text::decimal(port),
                make_parents: true,
            },
        )
    }
}

/// The files that are written when a port has been granted. `signature` is the JSON of the
/// signature.
pub fn startup_files(settings: &FileSettings, port: i32, ip: &str, signature: &str) -> (r:
    StartupFiles)
    ensures
        r.connection_file == settings::flag_value(
            settings.connection_file.deep_view(),
            settings::CONNECTION_FILE,
        ),
        r.port_file == settings::flag_value(
            settings.port_manager.deep_view(),
            settings::PORT_MANAGER,
        ),
        r.writes.deep_view() == startup_writes(
            r.connection_file,
            settings.persist_port,
            r.port_file,
            settings.port_path.deep_view(),
            port as int,
            ip@,
            signature@,
        ),
{
    let connection_file: Option<bool> = settings::flag(
        settings.connection_file,
        settings::CONNECTION_FILE,
    );
    let port_file: Option<bool> = settings::flag(settings.port_manager, settings::PORT_MANAGER);
    let mut writes: Vec<FileWrite> = Vec::new();
    assert(writes.deep_view() =~= Seq::empty());
    if let Some(wanted) = connection_file {
        if wanted {
            writes.push(
                FileWrite {
                    kind: FileKind::Connection,
                    path: CONNECTION_FILE.to_owned(),
                    contents: connection_json(port, ip),
                    make_parents: false,
                },
            );
        }
        let ghost first = writes.deep_view();
        assert(first =~= file_if(
            wanted,
            FileView {
                kind: FileKind::Connection,
                path: CONNECTION_FILE@,
                contents: connection_text(port as int, ip@),
                make_parents: false,
            },
        ));
        if settings.persist_port {
            writes.push(
                FileWrite {
                    kind: FileKind::Signature,
                    path: SIGNATURE_FILE.to_owned(),
                    contents: signature.to_owned(),
                    make_parents: false,
                },
            );
        }
        let ghost second = writes.deep_view();
        assert(second =~= first + file_if(
            settings.persist_port,
            FileView {
                kind: FileKind::Signature,
                path: SIGNATURE_FILE@,
                contents: signature@,
                make_parents: false,
            },
        ));
        if let Some(true) = port_file {
            let path: String = match settings.port_path {
                Some(p) => p.to_owned(),
                None => PORT_FILE.to_owned(),
            };
            writes.push(
                FileWrite {
                    kind: FileKind::Port,
                    path,
                    contents: text::write_decimal(port),
                    make_parents: true,
                },
            );
        }
        assert(writes.deep_view() =~= startup_writes(
            connection_file,
            settings.persist_port,
            port_file,
            settings.port_path.deep_view(),
            port as int,
            ip@,
            signature@,
        ));
    }
    StartupFiles { writes, connection_file, port_file }
}

/// Whether a character stands for itself in a JSON string.
pub open spec fn is_plain(c: char) -> bool {
    c >= ' ' && c != '"' && c != '\\'
}

/// An address without special characters stands in the connection file as it is.
pub proof fn law_plain_text_is_quoted_as_it_is(s: Seq<char>)
    requires
        forall|i: int| 0 <= i < s.len() ==> is_plain(#[trigger] s[i]),
    ensures
        outside::json_string(s) == seq!['"'] + s + seq!['"'],
{
    lemma_plain_characters(s);
}

proof fn lemma_plain_characters(s: Seq<char>)
    requires
        forall|i: int| 0 <= i < s.len() ==> is_plain(#[trigger] s[i]),
    ensures
        outside::json_characters(s) == s,
    decreases s.len(),
{
    if s.len() > 0 {
        let before = s.drop_last();
        assert forall|i: int| 0 <= i < before.len() implies is_plain(#[trigger] before[i]) by {
            assert(before[i] == s[i]);
        }
        lemma_plain_characters(before);
        assert(is_plain(s[s.len() - 1]));
        assert(before + seq![s.last()] =~= s);
    } else {
        assert(s =~= Seq::empty());
    }
}

/// Each file follows its own setting alone. Where it can be read whether the connection file is
/// wanted, a file is among those written if and only if it is the connection file and wanted, the
/// signature and to persist, or the port file and wanted; there are as many as are wanted, the
/// connection file before the signature and the port file behind both.
pub proof fn law_each_file_follows_its_own_setting(
    connection_file: bool,
    persist_port: bool,
    port_file: Option<bool>,
    port_path: Option<Seq<char>>,
    port: int,
    ip: Seq<char>,
    signature: Seq<char>,
    file: FileView,
)
    ensures
        ({
            let writes = startup_writes(
                Some(connection_file),
                persist_port,
                port_file,
                port_path,
                port,
                ip,
                signature,
            );
            let connection = FileView {
                kind: FileKind::Connection,
                path: "/config/connection.json"@,
                contents: connection_text(port, ip),
                make_parents: false,
            };
            let saved = FileView {
                kind: FileKind::Signature,
                path: "/config/signature.json"@,
                contents: signature,
                make_parents: false,
            };
            let forwarded = FileView {
                kind: FileKind::Port,
                path: if port_path is Some {
                    port_path->0
                } else {
                    "/tmp/gluetun/forwarded_port"@
                },
                contents: text::decimal(port),
                make_parents: true,
            };
            &&& writes.contains(file) <==> (connection_file && file == connection) || (persist_port
                && file == saved) || (port_file == Some(true) && file == forwarded)
            &&& writes.len() == (if connection_file {
                1int
            } else {
                0
            }) + (if persist_port {
                1int
            } else {
                0
            }) + (if port_file == Some(true) {
                1int
            } else {
                0
            })
            &&& connection_file ==> writes[0] == connection
            &&& persist_port ==> writes[if connection_file {
                1
            } else {
                0
            }] == saved
            &&& port_file == Some(true) ==> writes.last() == forwarded
        }),
{
    let writes = startup_writes(
        Some(connection_file),
        persist_port,
        port_file,
        port_path,
        port,
        ip,
        signature,
    );
    if writes.len() > 0 {
        assert(writes.contains(writes[0]));
    }
    if writes.len() > 1 {
        assert(writes.contains(writes[1]));
    }
    if writes.len() > 2 {
        assert(writes.contains(writes[2]));
    }
}

/// Where it cannot be read whether the connection file is wanted, no file is written.
pub proof fn law_an_unreadable_setting_writes_nothing(
    persist_port: bool,
    port_file: Option<bool>,
    port_path: Option<Seq<char>>,
    port: int,
    ip: Seq<char>,
    signature: Seq<char>,
)
    ensures
        startup_writes(None, persist_port, port_file, port_path, port, ip, signature).len() == 0,
{
}

/// The connection file holds the port and the address, whatever they are, and an address without
/// special characters stands in it as it is.
pub proof fn law_the_connection_file_holds_both(port: int, ip: Seq<char>)
    ensures
        connection_text(port, ip) == "{\"ip\":"@ + outside::json_string(ip) + ",\"port\":"@
            + text::decimal(port) + "}"@,
        (forall|i: int| 0 <= i < ip.len() ==> ' ' <= #[trigger] ip[i] && ip[i] != '"' && ip[i]
            != '\\') ==> connection_text(port, ip) == "{\"ip\":\""@ + ip + "\",\"port\":"@
            + text::decimal(port) + "}"@,
{
    if forall|i: int| 0 <= i < ip.len() ==> ' ' <= #[trigger] ip[i] && ip[i] != '"' && ip[i]
        != '\\' {
        assert forall|i: int| 0 <= i < ip.len() implies is_plain(#[trigger] ip[i]) by {}
        law_plain_text_is_quoted_as_it_is(ip);
        reveal_strlit("{\"ip\":");
        reveal_strlit("{\"ip\":\"");
        reveal_strlit(",\"port\":");
        reveal_strlit("\",\"port\":");
        assert(connection_text(port, ip) =~= "{\"ip\":\""@ + ip + "\",\"port\":"@ + text::decimal(
            port,
        ) + "}"@);
    }
}

/// Bytes are read as the text that they encode, and refused exactly where they are no UTF-8.
pub proof fn law_only_utf8_is_read(bytes: Seq<u8>)
    ensures
        vstd::utf8::valid_utf8(bytes) ==> bytes_text(bytes) == Ok::<Seq<char>, PayloadError>(
            vstd::utf8::decode_utf8(bytes),
        ),
        !vstd::utf8::valid_utf8(bytes) ==> bytes_text(bytes) == Err::<Seq<char>, PayloadError>(
            PayloadError::NotUtf8,
        ),
{
}

/// A grant holds up to its time and in the second itself, and has run out at every later time.
pub proof fn law_a_grant_runs_out_after_its_time(payload: Payload, now: int)
    ensures
        payload.has_expired(now) <==> now > payload.expires_at,
{
}

/// What the user reads of a request to bind a port names the port exactly when the server bound it,
/// and hands on what the server said where it did not.
pub proof fn law_the_answer_of_the_server_is_told(
    status: Seq<char>,
    message: Seq<char>,
    port: int,
)
    ensures
        status == "OK"@ ==> bind_text(Some(status), message, port) == "[INFO] Port "@
            + text::decimal(port) + " bound successfully"@,
        status != "OK"@ ==> bind_text(Some(status), message, port)
            == "[WARN] Failed to bind port: "@ + message,
        bind_text(None, message, port) == "[WARN] Could not reach PIA API for port binding"@,
{
}

/// The views keep every value as it is.
pub proof fn law_the_views_of_a_grant_keep_all(s: Signature, file: FileWrite)
    ensures
        s@.payload == s.payload@,
        s@.signature == s.signature@,
        s@.status == s.status@,
        s@.message == s.message.deep_view(),
        file.deep_view() == file@,
        file@.kind == file.kind,
        file@.path == file.path@,
        file@.contents == file.contents@,
        file@.make_parents == file.make_parents,
{
}

} // verus!
