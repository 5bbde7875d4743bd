//! HTTP proxies: asking one for a tunnel, and being one.
use vstd::prelude::*;
use vstd::slice::slice_subrange;
use vstd::slice::slice_to_vec;
use vstd::utf8::decode_utf8;
use vstd::utf8::encode_utf8;
use vstd::utf8::valid_utf8;

use crate::deps::base64_text::base64_encode;
use crate::deps::base64_text::base64_of;
use crate::deps::http_head::fields;
use crate::deps::http_head::parse_request_head;
use crate::deps::http_head::parse_response_head;
use crate::deps::http_head::request_head;
use crate::deps::http_head::response_head;
use crate::deps::http_head::RequestHead;
use crate::deps::http_head::RequestHeadView;
use crate::deps::web_url::parse_url;
use crate::deps::web_url::url_parts;
use crate::flow::error::FlowError;
use crate::flow::DestView;
use crate::flow::DestinationAddr;
use crate::flow::FlowContext;
use crate::flow::HostName;
use crate::flow::HostView;
use crate::net_text::host_of_text;
use crate::net_text::ip_text;
use crate::net_text::ip_text_spec;
use crate::net_text::read_host;
use crate::text::chars_of;
use crate::text::contains;
use crate::text::cut_at_last;
use crate::text::decimal;
use crate::text::drop_trailing;
use crate::text::from_utf8_lossy;
use crate::text::has_prefix;
use crate::text::has_substring;
use crate::text::parse_unsigned;
use crate::text::parse_unsigned_spec;
use crate::text::push_decimal;
use crate::text::rfind;
use crate::text::same_but_case;
use crate::text::same_ignoring_case;
use crate::text::same_text;
use crate::text::slice_of;
use crate::text::starts_with;
use crate::text::str_from_utf8;
use crate::text::string_of;
use crate::text::trim_end_char;
use crate::text::utf8_lossy;

verus! {

// ---- Asking a proxy ----
/// A user and a password, joined by a colon.
pub open spec fn joined(user: Seq<u8>, pass: Seq<u8>) -> Seq<u8> {
    user + seq![0x3au8] + pass
}

/// What follows the address in a request for a tunnel.
pub open spec fn after_addr(cred: Option<(Seq<u8>, Seq<u8>)>) -> Seq<u8> {
    let auth = match cred {
        Some((user, pass)) => encode_utf8("\r\nAuthorization: Basic "@) + encode_utf8(
            base64_of(joined(user, pass)),
        ),
        None => Seq::empty(),
    };
    encode_utf8(" HTTP/1.1"@) + auth + encode_utf8("\r\n\r\n"@)
}

pub open spec fn cred_view(cred: Option<(&[u8], &[u8])>) -> Option<(Seq<u8>, Seq<u8>)> {
    match cred {
        Some((user, pass)) => Some((user@, pass@)),
        None => None,
    }
}

/// Opens each outbound as a tunnel through an HTTP proxy.
pub struct HttpProxyOutboundFactory<N> {
    pub req_after_addr: Vec<u8>,
    pub next: N,
}

/// How far the answer of a proxy is.
#[derive(Clone, Copy, PartialEq, Eq, Structural, Debug)]
pub enum AnswerStep {
    /// At least so many bytes are needed.
    Need(usize),
    /// The tunnel is open. So many bytes belong to the answer.
    Open(usize),
}

/// The host of a destination as a request writes it: a name without the dots at its end, or the
/// address in text.
pub open spec fn request_host_spec(host: HostView) -> Seq<char> {
    match host {
        HostView::DomainName(name) => trim_end_char(name, '.'),
        HostView::Ip(ip) => ip_text_spec(ip),
    }
}

/// The request for a tunnel, with the first data behind it.
pub open spec fn connect_spec(
    dest: DestView,
    req_after_addr: Seq<u8>,
    initial_data: Seq<u8>,
) -> Seq<u8> {
    encode_utf8(
        "CONNECT "@ + request_host_spec(dest.host) + seq![':'] + decimal(
            dest.port as nat,
        ),
    ) + req_after_addr + initial_data
}

/// What the answer of a proxy comes to, given what was read of its head. An answer may have 1024
/// bytes.
pub open spec fn answer_spec(
    len: nat,
    head: Option<Option<(usize, Option<u16>)>>,
) -> Result<AnswerStep, FlowError> {
    if len > 1024 {
        Err(FlowError::UnexpectedData)
    } else {
        match head {
            Some(None) => Ok(AnswerStep::Need((len + 1) as usize)),
            Some(Some((size, Some(code)))) if 200 <= code <= 299 => Ok(AnswerStep::Open(size)),
            _ => Err(FlowError::UnexpectedData),
        }
    }
}

/// What the answer of a proxy comes to, given what was read of its head.
pub fn after_answer(len: usize, head: Option<Option<(usize, Option<u16>)>>) -> (r: Result<
    AnswerStep,
    FlowError,
>)
    ensures
        r == answer_spec(len as nat, head),
{
    if len > 1024 {
        return Err(FlowError::UnexpectedData);
    }
    match head {
        Some(None) => Ok(AnswerStep::Need(len + 1)),
        Some(Some((size, Some(code)))) => if 200 <= code && code <= 299 {
            Ok(AnswerStep::Open(size))
        } else {
            Err(FlowError::UnexpectedData)
        },
        _ => Err(FlowError::UnexpectedData),
    }
}

fn push_text(out: &mut Vec<u8>, text: &str)
    ensures
        final(out)@ == old(out)@ + encode_utf8(text@),
{
    let mut b: Vec<u8> = slice_to_vec(text.as_bytes());
    out.append(&mut b);
}

impl<N> HttpProxyOutboundFactory<N> {
    pub fn new(cred: Option<(&[u8], &[u8])>, next: N) -> (r: Self)
        ensures
            r.req_after_addr@ == after_addr(cred_view(cred)),
            r.next == next,
    {
        let mut req: Vec<u8> = Vec::new();
        push_text(&mut req, " HTTP/1.1");
        if let Some((user, pass)) = cred {
            let mut plain: Vec<u8> = slice_to_vec(user);
            plain.push(0x3a);
            let mut p: Vec<u8> = slice_to_vec(pass);
            plain.append(&mut p);
            assert(plain@ =~= joined(user@, pass@));
            push_text(&mut req, "\r\nAuthorization: Basic ");
            push_text(&mut req, base64_encode(plain.as_slice()).as_str());
        }
        push_text(&mut req, "\r\n\r\n");
        assert(req@ =~= after_addr(cred_view(cred)));
        HttpProxyOutboundFactory { req_after_addr: req, next }
    }

    /// The request that opens the tunnel of a flow.
    pub fn create_outbound(&self, context: &FlowContext, initial_data: &[u8]) -> (req: Vec<u8>)
        ensures
            req@ == connect_spec(context.remote_peer@, self.req_after_addr@, initial_data@),
    {
        let mut text: Vec<char> = chars_of("CONNECT ");
        let mut host: Vec<char> = match &context.remote_peer.host {
            HostName::DomainName(name) => {
                let chars: Vec<char> = chars_of(name.as_str());
                slice_to_vec(drop_trailing(chars.as_slice(), '.'))
            },
            HostName::Ip(ip) => chars_of(ip_text(*ip).as_str()),
        };
        text.append(&mut host);
        text.push(':');
        push_decimal(&mut text, context.remote_peer.port as u64);
        let ghost line = "CONNECT "@ + request_host_spec(context.remote_peer@.host)
            + seq![':'] + decimal(context.remote_peer.port as nat);
        assert(text@ =~= line);
        let line = string_of(text.as_slice());
        let mut req: Vec<u8> = slice_to_vec(line.as_str().as_bytes());
        let mut after: Vec<u8> = slice_to_vec(self.req_after_addr.as_slice());
        req.append(&mut after);
        let mut data: Vec<u8> = slice_to_vec(initial_data);
        req.append(&mut data);
        req
    }

    /// How far the answer of the proxy is, after all the bytes of it that came.
    pub fn on_answer(&self, data: &[u8]) -> (r: Result<AnswerStep, FlowError>)
        ensures
            r == answer_spec(data@.len(), response_head(data@, 4)),
            r matches Ok(AnswerStep::Open(size)) ==> size <= data@.len(),
    {
        if data.len() > 1024 {
            return Err(FlowError::UnexpectedData);
        }
        after_answer(data.len(), parse_response_head(data, 4))
    }
}

// ---- Being a proxy ----
/// Serves requests for tunnels and for pages, and hands the flows on.
pub struct HttpHandler<N> {
    /// What the `Authorization` field has to say, if anything.
    pub auth_header: Option<String>,
    pub next: N,
}

/// What the `Authorization` field has to say.
pub open spec fn basic_auth(user: Seq<u8>, pass: Seq<u8>) -> Seq<char> {
    "Basic "@ + base64_of(encode_utf8(utf8_lossy(user) + seq![':'] + utf8_lossy(pass)))
}

impl<N> HttpHandler<N> {
    pub fn new(cred: Option<(&[u8], &[u8])>, next: N) -> (r: Self)
        ensures
            match (cred, r.auth_header) {
                (Some((user, pass)), Some(auth)) => auth@ == basic_auth(user@, pass@),
                (None, None) => true,
                _ => false,
            },
            r.next == next,
    {
        let auth_header = match cred {
            Some((user, pass)) => {
                let mut plain: Vec<char> = chars_of(from_utf8_lossy(user).as_str());
                plain.push(':');
                let mut p: Vec<char> = chars_of(from_utf8_lossy(pass).as_str());
                plain.append(&mut p);
                assert(plain@ =~= utf8_lossy(user@) + seq![':'] + utf8_lossy(pass@));
                let plain = string_of(plain.as_slice());
                let mut auth: Vec<char> = chars_of("Basic ");
                let mut b: Vec<char> = chars_of(base64_encode(plain.as_str().as_bytes()).as_str());
                auth.append(&mut b);
                assert(auth@ =~= basic_auth(user@, pass@));
                Some(string_of(auth.as_slice()))
            },
            None => None,
        };
        HttpHandler { auth_header, next }
    }
}

/// Whether the end of a head stands at `i`: an empty line.
pub open spec fn ends_at(data: Seq<u8>, i: int) -> bool {
    0 <= i && i + 4 <= data.len() && data[i] == 13 && data[i + 1] == 10 && data[i + 2] == 13
        && data[i + 3] == 10
}

/// Where the head ends, from `from` on.
pub open spec fn end_from(data: Seq<u8>, from: int) -> Option<int>
    decreases data.len() - from,
{
    if from < 0 || from + 4 > data.len() {
        None
    } else if ends_at(data, from) {
        Some(from)
    } else {
        end_from(data, from + 1)
    }
}

/// Where the head ends: at the first empty line.
pub fn find_header_end(data: &[u8]) -> (r: Option<usize>)
    ensures
        match r {
            Some(i) => end_from(data@, 0) == Some(i as int) && ends_at(data@, i as int)
                && forall|j: int| 0 <= j < i ==> !ends_at(data@, j),
            None => end_from(data@, 0) is None && forall|j: int| !ends_at(data@, j),
        },
{
    let len: usize = data.len();
    let mut i: usize = 0;
    while i < len && len - i >= 4
        invariant
            len == data@.len(),
            i <= len,
            end_from(data@, 0) == end_from(data@, i as int),
            forall|j: int| 0 <= j < i ==> !ends_at(data@, j),
        decreases len - i,
    {
        if data[i] == 13 && data[i + 1] == 10 && data[i + 2] == 13 && data[i + 3] == 10 {
            return Some(i);
        }
        i += 1;
    }
    None
}

/// The end of a head stays where it is when more bytes follow.
pub proof fn end_stays(data: Seq<u8>, more: Seq<u8>, from: int)
    requires
        end_from(data, from) is Some,
    ensures
        end_from(data + more, from) == end_from(data, from),
    decreases data.len() - from,
{
    assert(ends_at(data + more, from) == ends_at(data, from));
    if !ends_at(data, from) {
        end_stays(data, more, from + 1);
    }
}

/// Collects what was seen of a stream until a head is there.
pub struct HeaderReader {
    pub header_data: Vec<u8>,
    pub should_break: bool,
}

/// Whether bytes begin with a method that is served.
pub open spec fn is_served(data: Seq<u8>) -> bool {
    begins(data, encode_utf8("GET"@)) || begins(data, encode_utf8("POST"@)) || begins(
        data,
        encode_utf8("CONNECT"@),
    )
}

pub open spec fn begins(data: Seq<u8>, with: Seq<u8>) -> bool {
    with.len() <= data.len() && data.subrange(0, with.len() as int) == with
}

fn begins_with(data: &[u8], text: &str) -> (r: bool)
    ensures
        r == begins(data@, encode_utf8(text@)),
{
    let with = text.as_bytes();
    if with.len() > data.len() {
        return false;
    }
    let mut i: usize = 0;
    while i < with.len()
        invariant
            i <= with@.len() <= data@.len(),
            with@ == encode_utf8(text@),
            forall|j: int| 0 <= j < i ==> data@[j] == with@[j],
        decreases with@.len() - i,
    {
        if data[i] != with[i] {
            assert(data@.subrange(0, with@.len() as int)[i as int] != with@[i as int]);
            return false;
        }
        i += 1;
    }
    assert(data@.subrange(0, with@.len() as int) =~= with@);
    true
}

impl HeaderReader {
    pub fn new() -> (r: Self)
        ensures
            r.header_data@.len() == 0,
            !r.should_break,
    {
        HeaderReader { header_data: Vec::new(), should_break: false }
    }

    /// Whether to look at the stream once more. Once the time is up, or after what cannot be a
    /// request, reading has failed.
    pub fn poll(&mut self, timed_out: bool) -> (r: Result<(), FlowError>)
        ensures
            final(self).header_data == old(self).header_data,
            final(self).should_break == (old(self).should_break || timed_out),
            match r {
                Ok(()) => !final(self).should_break,
                Err(e) => final(self).should_break && e == FlowError::UnexpectedData,
            },
    {
        if timed_out {
            self.should_break = true;
        }
        if self.should_break {
            Err(FlowError::UnexpectedData)
        } else {
            Ok(())
        }
    }

    /// Takes what a look at the stream showed, and says where the head ends, if its end is there.
    /// Everything that was shown is appended, also what was shown before.
    pub fn on_peek(&mut self, data: &[u8]) -> (r: Option<usize>)
        ensures
            final(self).header_data@ == old(self).header_data@ + data@,
            final(self).should_break == (old(self).should_break || (old(self).header_data@.len()
                == 0 && !is_served(data@))),
            match r {
                Some(i) => end_from(final(self).header_data@, 0) == Some(i as int) && ends_at(
                    final(self).header_data@,
                    i as int,
                ),
                None => end_from(final(self).header_data@, 0) is None,
            },
    {
        if self.header_data.len() == 0 {
            if !(begins_with(data, "GET") || begins_with(data, "POST") || begins_with(
                data,
                "CONNECT",
            )) {
                self.should_break = true;
            }
        }
        let mut more: Vec<u8> = slice_to_vec(data);
        self.header_data.append(&mut more);
        find_header_end(self.header_data.as_slice())
    }
}

/// What a client asks for.
#[derive(Debug)]
pub enum DestRequest {
    Connect(DestinationAddr),
    Http { method: String, host: String, port: u16, path: String },
}

#[verifier::ext_equal]
pub enum DestRequestView {
    Connect(DestView),
    Http { method: Seq<char>, host: Seq<char>, port: u16, path: Seq<char> },
}

impl View for DestRequest {
    type V = DestRequestView;

    open spec fn view(&self) -> DestRequestView {
        match self {
            DestRequest::Connect(d) => DestRequestView::Connect(d@),
            DestRequest::Http { method, host, port, path } => DestRequestView::Http {
                method: method@,
                host: host@,
                port: *port,
                path: path@,
            },
        }
    }
}

/// A host, parted from its port by the last colon.
pub open spec fn host_port_spec(addr: Seq<char>) -> Option<(Seq<char>, u16)> {
    match cut_at_last(addr, ':') {
        Some((host, port)) => match parse_unsigned_spec(port, 65535) {
            Some(n) => Some((host, n as u16)),
            None => None,
        },
        None => None,
    }
}

fn split_host_port(addr: &str) -> (r: Option<(String, u16)>)
    ensures
        match r {
            Some((host, port)) => host_port_spec(addr@) == Some((host@, port)),
            None => host_port_spec(addr@) is None,
        },
{
    let chars: Vec<char> = chars_of(addr);
    match rfind(chars.as_slice(), ':') {
        Some(at) => {
            let port = slice_subrange(chars.as_slice(), at + 1, chars.len());
            match parse_unsigned(port, 65535) {
                Some(n) => Some((slice_of(chars.as_slice(), 0, at), n as u16)),
                None => None,
            }
        },
        None => None,
    }
}

/// The destination that a request for a tunnel names.
pub fn parse_host_port(addr: &str) -> (r: Result<DestinationAddr, FlowError>)
    ensures
        match r {
            Ok(d) => host_port_spec(addr@) matches Some((host, port)) && d@ == (DestView {
                host: host_of_text(host),
                port,
            }),
            Err(e) => host_port_spec(addr@) is None && e == FlowError::UnexpectedData,
        },
{
    match split_host_port(addr) {
        Some((host, port)) => Ok(DestinationAddr { host: read_host(host), port }),
        None => Err(FlowError::UnexpectedData),
    }
}

/// The value of the first field with a name, whatever its case.
pub open spec fn field(headers: Seq<(Seq<char>, Seq<u8>)>, name: Seq<char>) -> Option<Seq<u8>>
    decreases headers.len(),
{
    if headers.len() == 0 {
        None
    } else if same_but_case(headers[0].0, name) {
        Some(headers[0].1)
    } else {
        field(headers.drop_first(), name)
    }
}

fn find_field<'a>(headers: &'a Vec<(String, Vec<u8>)>, name: &str) -> (r: Option<&'a Vec<u8>>)
    ensures
        match r {
            Some(v) => field(fields(headers@), name@) == Some(v@),
            None => field(fields(headers@), name@) is None,
        },
{
    let mut i: usize = 0;
    let ghost all = fields(headers@);
    assert(all.skip(0) =~= all);
    while i < headers.len()
        invariant
            i <= headers@.len(),
            all == fields(headers@),
            field(all, name@) == field(all.skip(i as int), name@),
        decreases headers@.len() - i,
    {
        assert(all.skip(i as int).drop_first() =~= all.skip(i + 1));
        if same_ignoring_case(headers[i].0.as_str(), name) {
            return Some(&headers[i].1);
        }
        i += 1;
    }
    None
}

/// Whether a path names a page of another server.
pub open spec fn is_absolute(path: Seq<char>) -> bool {
    starts_with(path, "http://"@) || starts_with(path, "https://"@)
}

fn absolute(path: &str) -> (r: bool)
    ensures
        r == is_absolute(path@),
{
    let p: Vec<char> = chars_of(path);
    has_prefix(p.as_slice(), chars_of("http://").as_slice()) || has_prefix(
        p.as_slice(),
        chars_of("https://").as_slice(),
    )
}

/// The host and the port that a `Host` field says. Port 80 is meant where it says none.
pub open spec fn host_field_spec(value: Seq<u8>) -> Option<(Seq<char>, u16)> {
    if !valid_utf8(value) {
        None
    } else {
        let text = decode_utf8(value);
        match cut_at_last(text, ':') {
            Some(_) => host_port_spec(text),
            None => Some((text, 80)),
        }
    }
}

/// The host and the port of the page that a path names.
pub open spec fn path_host_spec(path: Option<Seq<char>>) -> Option<(Seq<char>, u16)> {
    match path {
        Some(p) if is_absolute(p) => match url_parts(p) {
            Some(u) => match u.host {
                Some(host) => Some(
                    (
                        host,
                        match u.port {
                            Some(port) => port,
                            None => if u.scheme == "https"@ {
                                443
                            } else {
                                80
                            },
                        },
                    ),
                ),
                None => None,
            },
            None => None,
        },
        _ => None,
    }
}

/// The host and the port that a request for a page is for: those of its `Host` field, or, where it
/// has none, those in its path.
pub open spec fn page_host_spec(head: RequestHeadView) -> Option<(Seq<char>, u16)> {
    match field(head.headers, "Host"@) {
        Some(value) => host_field_spec(value),
        None => path_host_spec(head.path),
    }
}

/// The host and the port that a request for a page is for.
pub fn extract_host_port_from_headers(head: &RequestHead) -> (r: Result<(String, u16), FlowError>)
    ensures
        match r {
            Ok((host, port)) => page_host_spec(head@) == Some((host@, port)),
            Err(e) => page_host_spec(head@) is None && e == FlowError::UnexpectedData,
        },
{
    match find_field(&head.headers, "Host") {
        Some(value) => {
            match str_from_utf8(value.as_slice()) {
                Some(text) => {
                    let chars: Vec<char> = chars_of(text);
                    if rfind(chars.as_slice(), ':').is_none() {
                        return Ok((text.to_string(), 80));
                    }
                    match split_host_port(text) {
                        Some((host, port)) => Ok((host, port)),
                        None => Err(FlowError::UnexpectedData),
                    }
                },
                None => Err(FlowError::UnexpectedData),
            }
        },
        None => {
            if let Some(path) = &head.path {
                if absolute(path.as_str()) {
                    if let Some(url) = parse_url(path.as_str()) {
                        return match url.host {
                            Some(host) => {
                                let port: u16 = match url.port {
                                    Some(p) => p,
                                    None => if same_text(url.scheme.as_str(), "https") {
                                        443
                                    } else {
                                        80
                                    },
                                };
                                Ok((host, port))
                            },
                            None => Err(FlowError::UnexpectedData),
                        };
                    }
                }
            }
            Err(FlowError::UnexpectedData)
        },
    }
}

/// What a request asks for; nothing where it cannot be served.
pub open spec fn request_spec(head: RequestHeadView) -> Option<DestRequestView> {
    match (head.method, head.path) {
        (Some(method), Some(path)) => if method == "CONNECT"@ {
            match host_port_spec(path) {
                Some((host, port)) => Some(
                    DestRequestView::Connect(DestView { host: host_of_text(host), port }),
                ),
                None => None,
            }
        } else {
            match page_host_spec(head) {
                Some((host, port)) => if is_absolute(path) {
                    Some(DestRequestView::Http { method, host, port, path })
                } else {
                    None
                },
                None => None,
            }
        },
        _ => None,
    }
}

/// What a request asks for.
pub fn parse_request(head: &RequestHead) -> (r: Result<DestRequest, FlowError>)
    ensures
        match r {
            Ok(req) => request_spec(head@) == Some(req@),
            Err(e) => request_spec(head@) is None && e == FlowError::UnexpectedData,
        },
{
    match &head.method {
        Some(method) => {
            if same_text(method.as_str(), "CONNECT") {
                match &head.path {
                    Some(path) => match parse_host_port(path.as_str()) {
                        Ok(dest) => Ok(DestRequest::Connect(dest)),
                        Err(e) => Err(e),
                    },
                    None => Err(FlowError::UnexpectedData),
                }
            } else {
                match extract_host_port_from_headers(head) {
                    Ok((host, port)) => match &head.path {
                        Some(path) => if absolute(path.as_str()) {
                            Ok(
                                DestRequest::Http {
                                    method: method.clone(),
                                    host,
                                    port,
                                    path: path.clone(),
                                },
                            )
                        } else {
                            Err(FlowError::UnexpectedData)
                        },
                        None => Err(FlowError::UnexpectedData),
                    },
                    Err(e) => Err(e),
                }
            }
        },
        None => Err(FlowError::UnexpectedData),
    }
}

/// Whether one of the texts occurs in a domain.
pub fn should_redirect(domain: &str, redirect_domains: &[&str]) -> (r: bool)
    ensures
        r == exists|i: int|
            0 <= i < redirect_domains@.len() && contains(domain@, (#[trigger] redirect_domains@[i])@),
{
    let d: Vec<char> = chars_of(domain);
    let mut i: usize = 0;
    while i < redirect_domains.len()
        invariant
            i <= redirect_domains@.len(),
            d@ == domain@,
            forall|j: int| 0 <= j < i ==> !contains(domain@, (#[trigger] redirect_domains@[j])@),
        decreases redirect_domains@.len() - i,
    {
        if has_substring(d.as_slice(), chars_of(redirect_domains[i]).as_slice()) {
            return true;
        }
        i += 1;
    }
    false
}

/// What a client is sent, and what becomes of its flow: how many bytes of it belong to the
/// request, and where it goes.
pub struct Served {
    pub reply: Vec<u8>,
    pub outcome: Result<(usize, DestinationAddr), FlowError>,
}

#[verifier::ext_equal]
pub struct ServedView {
    pub reply: Seq<u8>,
    pub outcome: Option<(nat, DestView)>,
}

impl View for Served {
    type V = ServedView;

    open spec fn view(&self) -> ServedView {
        ServedView {
            reply: self.reply@,
            outcome: match self.outcome {
                Ok((n, d)) => Some((n as nat, d@)),
                Err(_) => None,
            },
        }
    }
}

pub open spec fn established() -> Seq<u8> {
    encode_utf8(
        "HTTP/1.1 200 Connection Established\r\nProxy-Agent: MyProxy/1.0\r\nConnection: close\r\n\r\n"@,
    )
}

pub open spec fn auth_required() -> Seq<u8> {
    encode_utf8(
        "HTTP/1.1 407 Proxy Authentication Required\r\nProxy-Authenticate: Basic realm=\"proxy\"\r\nConnection: close\r\n\r\n"@,
    )
}

pub open spec fn found(host: Seq<char>) -> Seq<u8> {
    encode_utf8(
        "HTTP/1.1 302 Found\r\nLocation: http://"@ + host + "\r\nConnection: close\r\n\r\n"@,
    )
}

/// Whether a request says what it has to say to be let through.
pub open spec fn is_authorized(head: RequestHeadView, auth: Option<Seq<char>>) -> bool {
    match auth {
        Some(text) => match field(head.headers, "Authorization"@) {
            Some(value) => utf8_lossy(value) == text,
            None => false,
        },
        None => true,
    }
}

/// What becomes of a request whose head, without the empty line, has `header_end` bytes.
pub open spec fn served_spec(
    head: RequestHeadView,
    header_end: nat,
    auth: Option<Seq<char>>,
) -> ServedView {
    match request_spec(head) {
        Some(DestRequestView::Connect(dest)) => if is_authorized(head, auth) {
            ServedView { reply: established(), outcome: Some((header_end + 4, dest)) }
        } else {
            ServedView { reply: auth_required(), outcome: None }
        },
        Some(DestRequestView::Http { host, port, .. }) => if contains(host, "baidu.com"@) {
            ServedView { reply: found(host), outcome: None }
        } else {
            ServedView {
                reply: Seq::empty(),
                outcome: Some((0, DestView { host: host_of_text(host), port })),
            }
        },
        None => ServedView { reply: Seq::empty(), outcome: None },
    }
}

pub open spec fn text_view(auth: Option<String>) -> Option<Seq<char>> {
    match auth {
        Some(t) => Some(t@),
        None => None,
    }
}

/// Reads a head of `header_end` bytes.
pub fn read_head(header_data: &[u8], header_end: usize) -> (r: Result<RequestHead, FlowError>)
    requires
        header_end <= header_data@.len(),
    ensures
        match r {
            Ok(head) => request_head(header_data@.subrange(0, header_end as int), 32) == Some(
                head@,
            ),
            Err(e) => request_head(header_data@.subrange(0, header_end as int), 32) is None && e
                == FlowError::UnexpectedData,
        },
{
    match parse_request_head(slice_subrange(header_data, 0, header_end), 32) {
        Some(head) => Ok(head),
        None => Err(FlowError::UnexpectedData),
    }
}

impl<N> HttpHandler<N> {
    fn authorized(&self, head: &RequestHead) -> (r: bool)
        ensures
            r == is_authorized(head@, text_view(self.auth_header)),
    {
        match &self.auth_header {
            Some(auth) => match find_field(&head.headers, "Authorization") {
                Some(value) => same_text(from_utf8_lossy(value.as_slice()).as_str(), auth.as_str()),
                None => false,
            },
            None => true,
        }
    }

    /// Serves a request whose head, without the empty line, has `header_end` bytes. A request that
    /// is not let through, that is redirected or that cannot be served has no outcome.
    pub fn handle_http_connect(&self, head: &RequestHead, header_end: usize) -> (r: Served)
        requires
            header_end <= usize::MAX - 4,
        ensures
            r@ == served_spec(head@, header_end as nat, text_view(self.auth_header)),
            r.outcome matches Err(e) ==> e == FlowError::UnexpectedData,
    {
        let mut reply: Vec<u8> = Vec::new();
        let outcome = match parse_request(head) {
            Ok(DestRequest::Connect(dest)) => {
                if self.authorized(head) {
                    push_text(
                        &mut reply,
                        "HTTP/1.1 200 Connection Established\r\nProxy-Agent: MyProxy/1.0\r\nConnection: close\r\n\r\n",
                    );
                    assert(reply@ =~= established());
                    Ok((header_end + 4, dest))
                } else {
                    push_text(
                        &mut reply,
                        "HTTP/1.1 407 Proxy Authentication Required\r\nProxy-Authenticate: Basic realm=\"proxy\"\r\nConnection: close\r\n\r\n",
                    );
                    assert(reply@ =~= auth_required());
                    Err(FlowError::UnexpectedData)
                }
            },
            Ok(DestRequest::Http { host, port, .. }) => {
                let domains = ["baidu.com"];
                let ghost list = domains@;
                assert(list.len() == 1 && list[0]@ == "baidu.com"@);
                if should_redirect(host.as_str(), domains.as_slice()) {
                    let mut text: Vec<char> = chars_of("HTTP/1.1 302 Found\r\nLocation: http://");
                    let mut h: Vec<char> = chars_of(host.as_str());
                    let mut end: Vec<char> = chars_of("\r\nConnection: close\r\n\r\n");
                    text.append(&mut h);
                    text.append(&mut end);
                    let ghost whole = "HTTP/1.1 302 Found\r\nLocation: http://"@ + host@
                        + "\r\nConnection: close\r\n\r\n"@;
                    assert(text@ =~= whole);
                    push_text(&mut reply, string_of(text.as_slice()).as_str());
                    assert(reply@ =~= found(host@));
                    Err(FlowError::UnexpectedData)
                } else {
                    assert(!contains(host@, "baidu.com"@)) by {
                        assert(!contains(host@, list[0]@));
                    }
                    let dest = DestinationAddr { host: read_host(host), port };
                    Ok((0usize, dest))
                }
            },
            Err(e) => Err(e),
        };
        let r = Served { reply, outcome };
        assert(r@ =~= served_spec(head@, header_end as nat, text_view(self.auth_header)));
        r
    }

    /// The context of a flow that was served.
    pub fn destined(&self, context: FlowContext, dest: DestinationAddr) -> (r: FlowContext)
        ensures
            r == (FlowContext { remote_peer: dest, af_sensitive: false, ..context }),
    {
        FlowContext { remote_peer: dest, af_sensitive: false, ..context }
    }
}

/// A request for a tunnel that does not say what it has to say is answered with 407, and goes
/// nowhere.
pub proof fn refused_without_credentials(
    head: RequestHeadView,
    header_end: nat,
    auth: Seq<char>,
)
    requires
        request_spec(head) matches Some(DestRequestView::Connect(_)),
        !(field(head.headers, "Authorization"@) matches Some(value) && utf8_lossy(value) == auth),
    ensures
        served_spec(head, header_end, Some(auth)).reply == auth_required(),
        served_spec(head, header_end, Some(auth)).outcome is None,
{
}

/// Without credentials of its own a proxy opens every tunnel that it is asked for.
pub proof fn open_without_credentials(head: RequestHeadView, header_end: nat)
    requires
        request_spec(head) matches Some(DestRequestView::Connect(_)),
    ensures
        served_spec(head, header_end, None).reply == established(),
        served_spec(head, header_end, None).outcome matches Some((n, _)) && n == header_end + 4,
{
}

// ---- Laws ----
/// A host and a port are read from the text of a request for a tunnel, also where the host has colons
/// of its own; a port beyond 65535 is none, nor is a text without a colon.
pub proof fn hosts_and_ports_are_read(host: Seq<char>, port: nat, text: Seq<char>)
    ensures
        host_port_spec(host + seq![':'] + decimal(port)) == if port <= 65535 {
            Some((host, port as u16))
        } else {
            None
        },
        !text.contains(':') ==> host_port_spec(text) is None,
{
    crate::text::numbers_are_read_back(port, 65535);
    crate::text::texts_are_cut_at_the_last(host, decimal(port), ':');
    if !text.contains(':') {
        crate::text::texts_are_cut_at_the_last(Seq::empty(), text, ':');
    }
}

/// A client that asks for a tunnel to a host and a port gets a flow to just those, unless it does not
/// say what it has to say. Its request ends with the empty line behind the head.
pub proof fn tunnels_are_opened(
    h: &HttpHandler<()>,
    head: &RequestHead,
    header_end: usize,
    r: Served,
    host: Seq<char>,
    port: u16,
)
    requires
        head@.method == Some("CONNECT"@),
        head@.path == Some(host + seq![':'] + decimal(port as nat)),
        header_end <= usize::MAX - 4,
        call_ensures(HttpHandler::<()>::handle_http_connect, (h, head, header_end), r),
    ensures
        is_authorized(head@, text_view(h.auth_header)) ==> {
            &&& r.reply@ == encode_utf8(
                "HTTP/1.1 200 Connection Established\r\nProxy-Agent: MyProxy/1.0\r\nConnection: close\r\n\r\n"@,
            )
            &&& (r.outcome matches Ok((n, d)) && n == header_end + 4 && d@ == (DestView {
                host: host_of_text(host),
                port,
            }))
        },
        !is_authorized(head@, text_view(h.auth_header)) ==> {
            &&& r.reply@ == encode_utf8(
                "HTTP/1.1 407 Proxy Authentication Required\r\nProxy-Authenticate: Basic realm=\"proxy\"\r\nConnection: close\r\n\r\n"@,
            )
            &&& r.outcome matches Err(e) && e == FlowError::UnexpectedData
        },
{
    hosts_and_ports_are_read(host, port as nat, host);
    assert(r@.outcome == served_spec(head@, header_end as nat, text_view(h.auth_header)).outcome);
}

/// A client is let through exactly where the proxy wants no credentials, or where its `Authorization`
/// field, whatever the case of its name, says what is wanted.
pub proof fn credentials_let_through(
    headers: Seq<(Seq<char>, Seq<u8>)>,
    i: int,
    head: RequestHeadView,
    auth: Seq<char>,
)
    requires
        head.headers == headers,
        0 <= i < headers.len(),
        same_but_case(headers[i].0, "Authorization"@),
        forall|j: int|
            0 <= j < i ==> !same_but_case((#[trigger] headers[j]).0, "Authorization"@),
    ensures
        is_authorized(head, Some(auth)) <==> utf8_lossy(headers[i].1) == auth,
        is_authorized(head, None),
{
    first_field_counts(headers, "Authorization"@, i);
}

/// A client without an `Authorization` field is not let through where credentials are wanted.
pub proof fn no_credentials_no_way(head: RequestHeadView, auth: Seq<char>)
    requires
        forall|j: int|
            0 <= j < head.headers.len() ==> !same_but_case(
                (#[trigger] head.headers[j]).0,
                "Authorization"@,
            ),
    ensures
        !is_authorized(head, Some(auth)),
{
    missing_fields_are_missing(head.headers, "Authorization"@);
}

/// The first field with a name counts, whatever the case of the name.
pub proof fn first_field_counts(headers: Seq<(Seq<char>, Seq<u8>)>, name: Seq<char>, i: int)
    requires
        0 <= i < headers.len(),
        same_but_case(headers[i].0, name),
        forall|j: int| 0 <= j < i ==> !same_but_case((#[trigger] headers[j]).0, name),
    ensures
        field(headers, name) == Some(headers[i].1),
    decreases i,
{
    if i > 0 {
        let rest = headers.drop_first();
        assert(!same_but_case(headers[0].0, name));
        assert forall|j: int| 0 <= j < i - 1 implies !same_but_case(
            (#[trigger] rest[j]).0,
            name,
        ) by {
            assert(rest[j] == headers[j + 1]);
        }
        first_field_counts(rest, name, i - 1);
    }
}

/// A field that is not there has no value.
pub proof fn missing_fields_are_missing(headers: Seq<(Seq<char>, Seq<u8>)>, name: Seq<char>)
    requires
        forall|j: int| 0 <= j < headers.len() ==> !same_but_case((#[trigger] headers[j]).0, name),
    ensures
        field(headers, name) is None,
    decreases headers.len(),
{
    if headers.len() > 0 {
        let rest = headers.drop_first();
        assert(!same_but_case(headers[0].0, name));
        assert forall|j: int| 0 <= j < rest.len() implies !same_but_case(
            (#[trigger] rest[j]).0,
            name,
        ) by {
            assert(rest[j] == headers[j + 1]);
        }
        missing_fields_are_missing(rest, name);
    }
}

/// A request for a page goes to the host and the port in its `Host` field, or to port 80 where the
/// field names none. Its request stays with the flow.
pub proof fn pages_go_to_their_host(
    h: &HttpHandler<()>,
    head: &RequestHead,
    header_end: usize,
    r: Served,
    method: Seq<char>,
    rest: Seq<char>,
    host: Seq<char>,
    port: u16,
)
    requires
        method != "CONNECT"@,
        head@.method == Some(method),
        head@.path == Some("http://"@ + rest) || head@.path == Some("https://"@ + rest),
        !host.contains(':'),
        field(head@.headers, "Host"@) == Some(
            encode_utf8(host + seq![':'] + decimal(port as nat)),
        ) || port == 80 && field(head@.headers, "Host"@) == Some(encode_utf8(host)),
        !contains(host, "baidu.com"@),
        header_end <= usize::MAX - 4,
        call_ensures(HttpHandler::<()>::handle_http_connect, (h, head, header_end), r),
    ensures
        r.reply@.len() == 0,
        r.outcome matches Ok((n, d)) && n == 0 && d@ == (DestView {
            host: host_of_text(host),
            port,
        }),
{
    let text = host + seq![':'] + decimal(port as nat);
    hosts_and_ports_are_read(host, port as nat, host);
    vstd::utf8::encode_utf8_valid_utf8(text);
    vstd::utf8::encode_utf8_decode_utf8(text);
    vstd::utf8::encode_utf8_valid_utf8(host);
    vstd::utf8::encode_utf8_decode_utf8(host);
    crate::text::texts_are_cut_at_the_last(Seq::empty(), host, ':');
    crate::text::numbers_are_read_back(port as nat, 65535);
    crate::text::texts_are_cut_at_the_last(host, decimal(port as nat), ':');
    let (a, b) = ("http://"@, "https://"@);
    assert((a + rest).subrange(0, a.len() as int) =~= a);
    assert((b + rest).subrange(0, b.len() as int) =~= b);
    assert(r@.outcome == served_spec(head@, header_end as nat, text_view(h.auth_header)).outcome);
}

/// A request for a page without a `Host` field goes to the host in its URL, at the port there, or at
/// that of its scheme. A page that is not named by a URL is not served.
pub proof fn pages_go_to_their_url(
    head: RequestHeadView,
    method: Seq<char>,
    path: Seq<char>,
    host: Seq<char>,
)
    requires
        method != "CONNECT"@,
        head.method == Some(method),
        head.path == Some(path),
        field(head.headers, "Host"@) is None,
    ensures
        !is_absolute(path) ==> request_spec(head) is None,
        is_absolute(path) ==> (url_parts(path) matches Some(u) ==> (u.host == Some(host) ==> request_spec(
            head,
        ) == Some(
            DestRequestView::Http {
                method,
                host,
                port: match u.port {
                    Some(p) => p,
                    None => if u.scheme == "https"@ {
                        443
                    } else {
                        80
                    },
                },
                path,
            },
        ))),
        url_parts(path) is None ==> request_spec(head) is None,
{
}

/// A page whose host holds the text of a redirected domain is answered with a redirection to the host,
/// and the flow ends.
pub proof fn some_pages_are_redirected(
    head: RequestHeadView,
    header_end: nat,
    auth: Option<Seq<char>>,
    method: Seq<char>,
    host: Seq<char>,
    port: u16,
    path: Seq<char>,
)
    requires
        request_spec(head) == Some(DestRequestView::Http { method, host, port, path }),
        contains(host, "baidu.com"@),
    ensures
        served_spec(head, header_end, auth) == (ServedView {
            reply: encode_utf8(
                "HTTP/1.1 302 Found\r\nLocation: http://"@ + host + "\r\nConnection: close\r\n\r\n"@,
            ),
            outcome: None,
        }),
{
}

/// The request of a client for a tunnel: the line with the host, without the dots at its end, and the
/// port, the credentials where there are some, an empty line, and the first data.
pub proof fn tunnels_are_asked_for(
    cred: Option<(&[u8], &[u8])>,
    f: HttpProxyOutboundFactory<()>,
    context: &FlowContext,
    data: &[u8],
    req: Vec<u8>,
)
    requires
        call_ensures(HttpProxyOutboundFactory::<()>::new, (cred, ()), f),
        call_ensures(HttpProxyOutboundFactory::<()>::create_outbound, (&f, context, data), req),
    ensures
        ({
            let line = "CONNECT "@ + request_host_spec(context.remote_peer@.host) + seq![':']
                + decimal(context.remote_peer.port as nat);
            match cred {
                None => req@ == encode_utf8(line) + encode_utf8(" HTTP/1.1"@) + encode_utf8(
                    "\r\n\r\n"@,
                ) + data@,
                Some((user, pass)) => req@ == encode_utf8(line) + encode_utf8(" HTTP/1.1"@)
                    + encode_utf8("\r\nAuthorization: Basic "@) + encode_utf8(
                    base64_of(user@ + seq![0x3au8] + pass@),
                ) + encode_utf8("\r\n\r\n"@) + data@,
            }
        }),
        match context.remote_peer@.host {
            HostView::DomainName(name) => crate::tun::exchange_with_resolver::is_without_dots(
                request_host_spec(HostView::DomainName(name)),
                name,
            ),
            HostView::Ip(ip) => request_host_spec(HostView::Ip(ip)) == ip_text_spec(ip),
        },
{
    let line = encode_utf8(
        "CONNECT "@ + request_host_spec(context.remote_peer@.host) + seq![':'] + decimal(
            context.remote_peer.port as nat,
        ),
    );
    match cred {
        None => {
            assert(req@ =~= line + encode_utf8(" HTTP/1.1"@) + encode_utf8("\r\n\r\n"@) + data@);
        },
        Some((user, pass)) => {
            assert(req@ =~= line + encode_utf8(" HTTP/1.1"@) + encode_utf8(
                "\r\nAuthorization: Basic "@,
            ) + encode_utf8(base64_of(user@ + seq![0x3au8] + pass@)) + encode_utf8("\r\n\r\n"@)
                + data@);
        },
    }
    if let HostView::DomainName(name) = context.remote_peer@.host {
        crate::tun::exchange_with_resolver::lemma_without_dots(name);
    }
}

/// What a client asks a proxy for is what the proxy takes it to ask for.
pub proof fn proxies_understand_each_other(dest: DestView, head: RequestHeadView)
    requires
        head.method == Some("CONNECT"@),
        head.path == Some(
            request_host_spec(dest.host) + seq![':'] + decimal(dest.port as nat),
        ),
        dest.host matches HostView::Ip(ip) ==> crate::net_text::ip_of(ip_text_spec(ip)) == Some(ip),
    ensures
        request_spec(head) matches Some(DestRequestView::Connect(d)) && d.port == dest.port
            && match dest.host {
            HostView::Ip(ip) => d.host == HostView::Ip(ip),
            HostView::DomainName(name) => d.host == host_of_text(trim_end_char(name, '.')),
        },
{
    hosts_and_ports_are_read(request_host_spec(dest.host), dest.port as nat, Seq::empty());
}

/// The tunnel is open where the proxy answers with a success, right behind its answer; more is waited
/// for while the answer is not all there; and everything else is an error, as is a long answer.
pub proof fn answers_open_tunnels(
    f: &HttpProxyOutboundFactory<()>,
    data: &[u8],
    r: Result<AnswerStep, FlowError>,
)
    requires
        call_ensures(HttpProxyOutboundFactory::<()>::on_answer, (f, data), r),
    ensures
        r matches Ok(AnswerStep::Open(n)) ==> data@.len() <= 1024 && (response_head(data@, 4) matches Some(
            Some((size, Some(code))),
        ) && size == n && 200 <= code <= 299),
        data@.len() <= 1024 ==> (response_head(data@, 4) matches Some(Some((size, Some(code))))
            ==> (200 <= code <= 299 <==> r == Ok::<AnswerStep, FlowError>(AnswerStep::Open(size)))),
        data@.len() <= 1024 && response_head(data@, 4) == Some(
            None::<(usize, Option<u16>)>,
        ) <==> (r matches Ok(AnswerStep::Need(n)) && n == data@.len() + 1),
        data@.len() > 1024 || response_head(data@, 4) is None ==> r == Err::<AnswerStep, FlowError>(
            FlowError::UnexpectedData,
        ),
{
}

/// A stream that begins with a method that is served is read on until its head ends, at the first empty
/// line; one that begins otherwise, or takes too long, has failed.
pub proof fn heads_are_waited_for(
    s: &mut HeaderReader,
    data: &[u8],
    end: Option<usize>,
    t: &mut HeaderReader,
    timed_out: bool,
    r: Result<(), FlowError>,
)
    requires
        s.header_data@.len() == 0,
        !s.should_break,
        call_ensures(HeaderReader::on_peek, (s, data), end),
        *t == *final(s),
        call_ensures(HeaderReader::poll, (t, timed_out), r),
    ensures
        ({
            let served = begins(data@, encode_utf8("GET"@)) || begins(data@, encode_utf8("POST"@))
                || begins(data@, encode_utf8("CONNECT"@));
            &&& r is Ok <==> served && !timed_out
            &&& r matches Err(e) ==> e == FlowError::UnexpectedData
        }),
        end matches Some(i) ==> ends_at(data@, i as int) && forall|j: int|
            0 <= j < i ==> !ends_at(data@, j),
        end is None ==> forall|j: int| !ends_at(data@, j),
{
    assert(Seq::<u8>::empty() + data@ =~= data@);
    assert(final(s).header_data@ =~= data@);
    lemma_end_is_first(data@, 0);
}

proof fn lemma_end_is_first(data: Seq<u8>, from: int)
    requires
        0 <= from,
    ensures
        match end_from(data, from) {
            Some(i) => from <= i && ends_at(data, i) && forall|j: int|
                from <= j < i ==> !ends_at(data, j),
            None => forall|j: int| from <= j ==> !ends_at(data, j),
        },
    decreases data.len() - from,
{
    if from + 4 <= data.len() && !ends_at(data, from) {
        lemma_end_is_first(data, from + 1);
    }
}

/// The head of a request ends at an empty line: what is in front of the first one is the head.
pub proof fn heads_end_at_the_empty_line(data: &[u8], r: Option<usize>, head: Seq<u8>, rest: Seq<u8>)
    requires
        call_ensures(find_header_end, (data,), r),
        data@ == head + seq![13u8, 10, 13, 10] + rest,
        forall|j: int| 0 <= j < head.len() ==> !ends_at(data@, j),
    ensures
        r == Some(head.len() as usize),
{
    assert(ends_at(data@, head.len() as int));
}

/// What the proxy wants to hear is the word `Basic` and the credentials in Base64.
pub proof fn wanted_credentials(
    user: &[u8],
    pass: &[u8],
    h: HttpHandler<()>,
    none: HttpHandler<()>,
)
    requires
        call_ensures(HttpHandler::<()>::new, (Some((user, pass)), ()), h),
        call_ensures(HttpHandler::<()>::new, (None, ()), none),
    ensures
        h.auth_header matches Some(t) && t@ == "Basic "@ + base64_of(
            encode_utf8(utf8_lossy(user@) + seq![':'] + utf8_lossy(pass@)),
        ),
        none.auth_header is None,
{
}

/// A reader goes on until its time is up or the first bytes begin no request that is served, and then
/// never again.
pub proof fn readers_stop_for_good(
    h: &mut HeaderReader,
    data: &[u8],
    end: Option<usize>,
    i: &mut HeaderReader,
    timed_out: bool,
    r: Result<(), FlowError>,
    j: &mut HeaderReader,
    again: Result<(), FlowError>,
)
    requires
        call_ensures(HeaderReader::on_peek, (h, data), end),
        *i == *final(h),
        call_ensures(HeaderReader::poll, (i, timed_out), r),
        *j == *final(i),
        call_ensures(HeaderReader::poll, (j, false), again),
    ensures
        timed_out ==> r is Err,
        old(h).should_break ==> r is Err,
        r is Err ==> again is Err,
        r is Ok ==> again is Ok,
        r matches Err(e) ==> e == FlowError::UnexpectedData,
        !timed_out && !old(h).should_break && old(h).header_data@.len() > 0 ==> r is Ok,
        !timed_out && !old(h).should_break && old(h).header_data@.len() == 0 ==> (r is Ok
            <==> begins_a_request(data@)),
        final(j).header_data@ == old(h).header_data@ + data@,
{
    reveal_strlit("GET");
    reveal_strlit("POST");
    reveal_strlit("CONNECT");
    vstd::utf8::is_ascii_chars_encode_utf8("GET"@);
    vstd::utf8::is_ascii_chars_encode_utf8("POST"@);
    vstd::utf8::is_ascii_chars_encode_utf8("CONNECT"@);
    assert(vstd::utf8::encode_utf8("GET"@) =~= seq![0x47u8, 0x45, 0x54]);
    assert(vstd::utf8::encode_utf8("POST"@) =~= seq![0x50u8, 0x4f, 0x53, 0x54]);
    assert(vstd::utf8::encode_utf8("CONNECT"@) =~= seq![0x43u8, 0x4f, 0x4e, 0x4e, 0x45, 0x43, 0x54]);
}

/// Whether bytes begin with GET, POST or CONNECT.
pub open spec fn begins_a_request(b: Seq<u8>) -> bool {
    ||| seq![0x47u8, 0x45, 0x54].is_prefix_of(b)
    ||| seq![0x50u8, 0x4f, 0x53, 0x54].is_prefix_of(b)
    ||| seq![0x43u8, 0x4f, 0x4e, 0x4e, 0x45, 0x43, 0x54].is_prefix_of(b)
}

/// A request is served only if it says how and what: a tunnel with a port, or a page by its whole URL.
/// Any other is not, whatever fields it has.
pub proof fn other_requests_are_not_served(
    h: &HttpHandler<()>,
    head: &RequestHead,
    header_end: usize,
    r: Served,
)
    requires
        header_end <= usize::MAX - 4,
        call_ensures(HttpHandler::<()>::handle_http_connect, (h, head, header_end), r),
        head@.method is None || head@.path is None || (head@.method == Some("CONNECT"@)
            && !head@.path->Some_0.contains(':')) || (head@.method != Some("CONNECT"@) && !(
        "http://"@.is_prefix_of(head@.path->Some_0)) && !("https://"@.is_prefix_of(
            head@.path->Some_0,
        ))) || (head@.method != Some("CONNECT"@) && (field(head@.headers, "Host"@) matches Some(value)
            && !valid_utf8(value))),
    ensures
        r.outcome is Err,
        r.reply@.len() == 0,
{
    assert(r@.outcome == served_spec(head@, header_end as nat, text_view(h.auth_header)).outcome);
    if head@.method is Some && head@.path is Some {
        let path = head@.path->Some_0;
        if head@.method == Some("CONNECT"@) {
            crate::text::texts_are_cut_at_the_last(Seq::empty(), path, ':');
        } else {
            if starts_with(path, "http://"@) {
                assert("http://"@.is_prefix_of(path));
            }
            if starts_with(path, "https://"@) {
                assert("https://"@.is_prefix_of(path));
            }
        }
    }
}

/// The flow of a client that is served goes to its destination, from where it came, and to whichever
/// family of addresses that has.
pub proof fn served_flows_go_on(
    h: &HttpHandler<()>,
    context: FlowContext,
    dest: DestinationAddr,
    r: FlowContext,
)
    requires
        call_ensures(HttpHandler::<()>::destined, (h, context, dest), r),
    ensures
        r.remote_peer == dest,
        r.local_peer == context.local_peer,
        !r.af_sensitive,
        r.application_layer_protocol == context.application_layer_protocol,
{
}

} // verus!
