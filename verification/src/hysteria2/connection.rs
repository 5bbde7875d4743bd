//! How a Hysteria2 connection is made, and how a stream is opened on it.
use vstd::prelude::*;

use crate::hysteria2::codec::Hy2TcpResp;
use crate::net::IpAddr;
use crate::net::Ipv4Addr;
use crate::net::SocketAddr;
use crate::net_text::ip_of;
use crate::net_text::parse_ip;

verus! {

/// The status of a response to a successful authentication.
pub const HYSTERIA_STATUS_OK: u16 = 233;

/// Seconds to wait for a stream, and for the answer on it.
pub const STREAM_TIMEOUT_SECS: u64 = 10;

/// The address of the server: the one that `server` spells, where it spells one, else the first
/// address that its name resolved to. `None` where there is none.
pub open spec fn server_addr_spec(
    server: Seq<char>,
    resolved: Seq<Ipv4Addr>,
    port: u16,
) -> Option<SocketAddr> {
    match ip_of(server) {
        Some(ip) => Some(SocketAddr { ip, port }),
        None => if resolved.len() > 0 {
            Some(SocketAddr { ip: IpAddr::V4(resolved[0]), port })
        } else {
            None
        },
    }
}

/// Whether the name of the server has to be resolved: it spells no address.
pub fn needs_resolving(server: &str) -> (r: bool)
    ensures
        r == (ip_of(server@) is None),
{
    parse_ip(server).is_none()
}

/// The address of the server: the one that `server` spells, where it spells one, else the first
/// address that its name resolved to. `None` where there is none.
pub fn server_addr(server: &str, resolved: &[Ipv4Addr], port: u16) -> (r: Option<SocketAddr>)
    ensures
        r == server_addr_spec(server@, resolved@, port),
{
    match parse_ip(server) {
        Some(ip) => Some(SocketAddr { ip, port }),
        None => if resolved.len() > 0 {
            Some(SocketAddr { ip: IpAddr::V4(resolved[0]), port })
        } else {
            None
        },
    }
}

/// The header fields of the authentication request.
pub fn auth_headers(password: &str, padding: &str) -> (r: Vec<(String, String)>)
    ensures
        r@.len() == 3,
        r@[0].0@ == "Hysteria-Auth"@ && r@[0].1@ == password@,
        r@[1].0@ == "Hysteria-CC-RX"@ && r@[1].1@ == "0"@,
        r@[2].0@ == "Hysteria-Padding"@ && r@[2].1@ == padding@,
{
    let mut r: Vec<(String, String)> = Vec::new();
    r.push(("Hysteria-Auth".to_string(), password.to_owned()));
    r.push(("Hysteria-CC-RX".to_string(), "0".to_string()));
    r.push(("Hysteria-Padding".to_string(), padding.to_owned()));
    r
}

/// A header field of a response.
#[derive(Clone, Copy, PartialEq, Eq, Structural, Debug)]
pub enum HeaderField {
    Missing,
    /// It is there, but its value is no text.
    NotText,
    Text,
}

/// Why an authentication failed.
#[derive(Clone, Copy, PartialEq, Eq, Structural, Debug)]
pub enum AuthError {
    Status(u16),
    MissingCcRx,
    CcRxNotText,
    MissingUdp,
    UdpNotText,
}

/// Decides on the response to the authentication request, from its status and the fields
/// `Hysteria-CC-RX` and `Hysteria-UDP`.
pub fn auth(status: u16, cc_rx: HeaderField, udp: HeaderField) -> (r: Result<(), AuthError>)
    ensures
        r == (if status != HYSTERIA_STATUS_OK {
            Err(AuthError::Status(status))
        } else if cc_rx == HeaderField::Missing {
            Err(AuthError::MissingCcRx)
        } else if cc_rx == HeaderField::NotText {
            Err(AuthError::CcRxNotText)
        } else if udp == HeaderField::Missing {
            Err(AuthError::MissingUdp)
        } else if udp == HeaderField::NotText {
            Err(AuthError::UdpNotText)
        } else {
            Ok::<(), AuthError>(())
        }),
{
    if status != HYSTERIA_STATUS_OK {
        return Err(AuthError::Status(status));
    }
    match cc_rx {
        HeaderField::Missing => {
            return Err(AuthError::MissingCcRx);
        },
        HeaderField::NotText => {
            return Err(AuthError::CcRxNotText);
        },
        HeaderField::Text => {},
    }
    match udp {
        HeaderField::Missing => Err(AuthError::MissingUdp),
        HeaderField::NotText => Err(AuthError::UdpNotText),
        HeaderField::Text => Ok(()),
    }
}

/// What happened while a stream was being opened.
#[derive(Debug)]
pub enum ConnectEvent {
    /// The connection was looked at.
    Checked { closed: bool },
    Opened,
    OpenFailed,
    OpenTimedOut,
    Sent,
    SendFailed,
    Answered(Hy2TcpResp),
    ReadFailed,
    NoAnswer,
    AnswerTimedOut,
}

/// Why a stream could not be opened.
#[derive(Debug)]
pub enum ConnectError {
    Closed,
    OpenFailed,
    OpenTimedOut,
    SendFailed,
    Rejected(Hy2TcpResp),
    ReadFailed,
    NoAnswer,
    AnswerTimedOut,
}

/// What is done next.
#[derive(Debug)]
pub enum ConnectStep {
    OpenStream,
    SendRequest,
    AwaitAnswer,
    Done,
    Failed(ConnectError),
}

/// The step that follows an event: look at the connection, open a stream, send the request, read
/// the answer, which has to have the status zero.
pub open spec fn connect_step(event: ConnectEvent) -> ConnectStep {
    match event {
        ConnectEvent::Checked { closed } => if closed {
            ConnectStep::Failed(ConnectError::Closed)
        } else {
            ConnectStep::OpenStream
        },
        ConnectEvent::Opened => ConnectStep::SendRequest,
        ConnectEvent::OpenFailed => ConnectStep::Failed(ConnectError::OpenFailed),
        ConnectEvent::OpenTimedOut => ConnectStep::Failed(ConnectError::OpenTimedOut),
        ConnectEvent::Sent => ConnectStep::AwaitAnswer,
        ConnectEvent::SendFailed => ConnectStep::Failed(ConnectError::SendFailed),
        ConnectEvent::Answered(resp) => if resp.status == 0 {
            ConnectStep::Done
        } else {
            ConnectStep::Failed(ConnectError::Rejected(resp))
        },
        ConnectEvent::ReadFailed => ConnectStep::Failed(ConnectError::ReadFailed),
        ConnectEvent::NoAnswer => ConnectStep::Failed(ConnectError::NoAnswer),
        ConnectEvent::AnswerTimedOut => ConnectStep::Failed(ConnectError::AnswerTimedOut),
    }
}

/// Decides what is done next while a stream is being opened.
pub fn connect_tcp(event: ConnectEvent) -> (r: ConnectStep)
    ensures
        r == connect_step(event),
{
    match event {
        ConnectEvent::Checked { closed } => if closed {
            ConnectStep::Failed(ConnectError::Closed)
        } else {
            ConnectStep::OpenStream
        },
        ConnectEvent::Opened => ConnectStep::SendRequest,
        ConnectEvent::OpenFailed => ConnectStep::Failed(ConnectError::OpenFailed),
        ConnectEvent::OpenTimedOut => ConnectStep::Failed(ConnectError::OpenTimedOut),
        ConnectEvent::Sent => ConnectStep::AwaitAnswer,
        ConnectEvent::SendFailed => ConnectStep::Failed(ConnectError::SendFailed),
        ConnectEvent::Answered(resp) => if resp.status == 0 {
            ConnectStep::Done
        } else {
            ConnectStep::Failed(ConnectError::Rejected(resp))
        },
        ConnectEvent::ReadFailed => ConnectStep::Failed(ConnectError::ReadFailed),
        ConnectEvent::NoAnswer => ConnectStep::Failed(ConnectError::NoAnswer),
        ConnectEvent::AnswerTimedOut => ConnectStep::Failed(ConnectError::AnswerTimedOut),
    }
}

/// A stream is open only after an answer with the status zero.
pub proof fn done_only_when_accepted(event: ConnectEvent)
    ensures
        connect_step(event) is Done <==> (event matches ConnectEvent::Answered(resp)
            && resp.status == 0),
{
}

/// A connection to a server.
pub struct Hy2Connection {
    /// When it was made, on the clock of the caller.
    pub created_at: u64,
    /// Why it was closed, if it was.
    pub close_reason: Option<String>,
}

impl Hy2Connection {
    pub fn new(now: u64) -> (r: Self)
        ensures
            r.created_at == now,
            r.close_reason is None,
    {
        Hy2Connection { created_at: now, close_reason: None }
    }

    pub fn is_closed(&self) -> (r: bool)
        ensures
            r == (self.close_reason is Some),
    {
        self.close_reason.is_some()
    }

    /// Whether the connection can be used, or why not.
    pub fn check_open(&self) -> (r: Result<(), String>)
        ensures
            match (self.close_reason, r) {
                (None, Ok(())) => true,
                (Some(reason), Err(e)) => e@ == "连接已关闭: "@ + reason@,
                _ => false,
            },
    {
        match &self.close_reason {
            Some(reason) => {
                let mut e = "连接已关闭: ".to_string();
                e.append(reason.as_str());
                Err(e)
            },
            None => Ok(()),
        }
    }

    /// For how long the connection has been there.
    pub fn alive_duration(&self, now: u64) -> (r: u64)
        ensures
            r == (if now >= self.created_at {
                now - self.created_at
            } else {
                0
            }),
    {
        if now >= self.created_at {
            now - self.created_at
        } else {
            0
        }
    }
}

// ---- Laws ----
/// The address of a server is the one that its name spells, and needs no resolving; a name that spells
/// none is resolved, and the first address counts.
pub proof fn servers_are_found(
    server: &str,
    resolved: &[Ipv4Addr],
    port: u16,
    needed: bool,
    r: Option<SocketAddr>,
)
    requires
        call_ensures(needs_resolving, (server,), needed),
        call_ensures(server_addr, (server, resolved, port), r),
    ensures
        ip_of(server@) matches Some(ip) ==> !needed && r == Some(SocketAddr { ip, port }),
        ip_of(server@) is None ==> needed && (r is Some <==> resolved@.len() > 0) && (
        resolved@.len() > 0 ==> r == Some(SocketAddr { ip: IpAddr::V4(resolved@[0]), port })),
{
}

/// A client is let in exactly where the server answers with its own status, 233, and with both fields in
/// text; each failure is told by what is wrong first.
pub proof fn clients_are_let_in(
    status: u16,
    cc_rx: HeaderField,
    udp: HeaderField,
    r: Result<(), AuthError>,
)
    requires
        call_ensures(auth, (status, cc_rx, udp), r),
    ensures
        r is Ok <==> status == 233 && cc_rx is Text && udp is Text,
        status != 233 <==> (r matches Err(AuthError::Status(s)) && s == status),
        r == Err::<(), AuthError>(AuthError::MissingCcRx) <==> status == 233 && cc_rx is Missing,
        r == Err::<(), AuthError>(AuthError::CcRxNotText) <==> status == 233 && cc_rx is NotText,
        r == Err::<(), AuthError>(AuthError::MissingUdp) <==> status == 233 && cc_rx is Text
            && udp is Missing,
        r == Err::<(), AuthError>(AuthError::UdpNotText) <==> status == 233 && cc_rx is Text
            && udp is NotText,
{
}

/// A stream is opened on a connection that is open, then the request is sent, then its answer is waited
/// for. Whatever goes wrong ends it, with its own error.
pub proof fn streams_are_opened_in_order(event: ConnectEvent, r: ConnectStep)
    requires
        call_ensures(connect_tcp, (event,), r),
    ensures
        r is OpenStream <==> event == (ConnectEvent::Checked { closed: false }),
        r is SendRequest <==> event is Opened,
        r is AwaitAnswer <==> event is Sent,
        r is Done <==> (event matches ConnectEvent::Answered(a) && a.status == 0),
        event matches ConnectEvent::Answered(a) ==> (a.status != 0 ==> r == ConnectStep::Failed(
            ConnectError::Rejected(a),
        )),
        event == (ConnectEvent::Checked { closed: true }) ==> r == ConnectStep::Failed(
            ConnectError::Closed,
        ),
        event is OpenFailed ==> r == ConnectStep::Failed(ConnectError::OpenFailed),
        event is OpenTimedOut ==> r == ConnectStep::Failed(ConnectError::OpenTimedOut),
        event is SendFailed ==> r == ConnectStep::Failed(ConnectError::SendFailed),
        event is ReadFailed ==> r == ConnectStep::Failed(ConnectError::ReadFailed),
        event is NoAnswer ==> r == ConnectStep::Failed(ConnectError::NoAnswer),
        event is AnswerTimedOut ==> r == ConnectStep::Failed(ConnectError::AnswerTimedOut),
{
}

/// The credentials go in the field for them, with no bandwidth named, and a padding.
pub proof fn credentials_go_in_their_field(
    password: &str,
    padding: &str,
    r: Vec<(String, String)>,
)
    requires
        call_ensures(auth_headers, (password, padding), r),
    ensures
        r@.len() == 3,
        exists|i: int|
            0 <= i < 3 && (#[trigger] r@[i]).0@ == "Hysteria-Auth"@ && r@[i].1@ == password@,
        exists|i: int| 0 <= i < 3 && (#[trigger] r@[i]).0@ == "Hysteria-CC-RX"@ && r@[i].1@ == "0"@,
        exists|i: int|
            0 <= i < 3 && (#[trigger] r@[i]).0@ == "Hysteria-Padding"@ && r@[i].1@ == padding@,
{
    assert(r@[0].0@ == "Hysteria-Auth"@ && r@[1].0@ == "Hysteria-CC-RX"@ && r@[2].0@
        == "Hysteria-Padding"@);
}

/// A connection can be used exactly as long as it was not closed, and its age grows with the clock.
pub proof fn connections_live_until_closed(
    c: &Hy2Connection,
    closed: bool,
    check: Result<(), String>,
    now: u64,
    later: u64,
    age: u64,
    older: u64,
    fresh: Hy2Connection,
    fresh_closed: bool,
    birth: u64,
)
    requires
        now <= later,
        call_ensures(Hy2Connection::is_closed, (c,), closed),
        call_ensures(Hy2Connection::check_open, (c,), check),
        call_ensures(Hy2Connection::alive_duration, (c, now), age),
        call_ensures(Hy2Connection::alive_duration, (c, later), older),
        call_ensures(Hy2Connection::new, (now,), fresh),
        call_ensures(Hy2Connection::is_closed, (&fresh,), fresh_closed),
        call_ensures(Hy2Connection::alive_duration, (&fresh, later), birth),
    ensures
        check is Ok <==> !closed,
        !fresh_closed,
        birth == later - now,
        c.created_at <= now ==> older - age == later - now,
{
}

} // verus!
