//! Sending DNS queries over HTTPS.
use vstd::prelude::*;
use vstd::slice::slice_to_vec;
use vstd::utf8::decode_utf8;
use vstd::utf8::valid_utf8;

use crate::be::be_bytes;
use crate::deps::dns_proto::query_message;
use crate::deps::json::is_json;
use crate::deps::uri::parse_uri;
use crate::deps::uri::uri_parts;
use crate::deps::uri::UriParts;
use crate::deps::uri::UriView;
use crate::flow::DestView;
use crate::flow::DestinationAddr;
use crate::flow::HostName;
use crate::flow::HostView;
use crate::host_resolver::dns_packet_parser::dns_query_to_doh_params;
use crate::host_resolver::dns_packet_parser::first_query;
use crate::host_resolver::dns_packet_parser::json_response;
use crate::host_resolver::dns_packet_parser::json_to_dns_message;
use crate::host_resolver::dns_packet_parser::parse_dns_query;
use crate::host_resolver::dns_packet_parser::record_type_name;
use crate::host_resolver::dns_packet_parser::response_bytes;
use crate::host_resolver::dns_packet_parser::DnsQueryInfo;
use crate::host_resolver::dns_packet_parser::DnsQueryInfoView;
use crate::net::IpAddr;
use crate::net::Ipv4Addr;
use crate::text::chars_of;
use crate::text::decimal;
use crate::text::ends_with;
use crate::text::has_suffix;
use crate::text::push_decimal;
use crate::text::str_from_utf8;
use crate::text::string_of;

verus! {

/// A request to a resolver.
pub struct DohRequest {
    /// Whether the method is `GET`; it is `POST` otherwise.
    pub get: bool,
    pub uri: String,
    pub accept: String,
    pub content_type: Option<String>,
    pub content_length: Option<String>,
    pub body: Vec<u8>,
}

#[verifier::ext_equal]
pub struct DohRequestView {
    pub get: bool,
    pub uri: Seq<char>,
    pub accept: Seq<char>,
    pub content_type: Option<Seq<char>>,
    pub content_length: Option<Seq<char>>,
    pub body: Seq<u8>,
}

impl View for DohRequest {
    type V = DohRequestView;

    open spec fn view(&self) -> DohRequestView {
        DohRequestView {
            get: self.get,
            uri: self.uri@,
            accept: self.accept@,
            content_type: crate::deps::uri::opt_view(self.content_type),
            content_length: crate::deps::uri::opt_view(self.content_length),
            body: self.body@,
        }
    }
}

/// Whether a path belongs to the JSON interface of a resolver.
pub open spec fn is_json_path(path: Seq<char>) -> bool {
    ends_with(path, "/resolve"@) || ends_with(path, "/resolver"@)
}

/// Whether a path belongs to the JSON interface of a resolver.
pub fn is_json_api(path: &str) -> (r: bool)
    ensures
        r == is_json_path(path@),
{
    let p: Vec<char> = chars_of(path);
    has_suffix(p.as_slice(), chars_of("/resolve").as_slice()) || has_suffix(
        p.as_slice(),
        chars_of("/resolver").as_slice(),
    )
}

/// A query as the JSON interface takes it.
pub open spec fn json_request(url: UriView, query: DnsQueryInfoView) -> DohRequestView {
    DohRequestView {
        get: true,
        uri: url.text + "?name="@ + query.domain + "&type="@ + record_type_name(query.query_type),
        accept: "application/dns-json"@,
        content_type: None,
        content_length: None,
        body: Seq::empty(),
    }
}

/// A query as the binary interface takes it.
pub open spec fn binary_request(url: UriView, buf: Seq<u8>) -> DohRequestView {
    DohRequestView {
        get: false,
        uri: url.text,
        accept: "application/dns-message"@,
        content_type: Some("application/dns-message"@),
        content_length: Some(decimal(buf.len())),
        body: buf,
    }
}

/// How a query is sent, given what it asks for.
pub open spec fn request_for(
    url: UriView,
    buf: Seq<u8>,
    query: Option<DnsQueryInfoView>,
) -> DohRequestView {
    match query {
        Some(q) if is_json_path(url.path) => json_request(url, q),
        _ => binary_request(url, buf),
    }
}

/// What is handed back for the body of a response. `packet` is the DNS message that the body spells
/// as JSON, where it spells one.
pub open spec fn message_for(url: UriView, body: Seq<u8>, packet: Option<Seq<u8>>) -> Seq<u8> {
    match packet {
        Some(p) if is_json_path(url.path) => p,
        _ => body,
    }
}

/// The DNS message that a body spells as JSON, where it spells one.
pub open spec fn json_packet(body: Seq<u8>, query_id: u16) -> Option<Seq<u8>> {
    if valid_utf8(body) && is_json(decode_utf8(body)) {
        response_bytes(json_response(decode_utf8(body), query_id))
    } else {
        None
    }
}

/// What a session is doing.
pub enum DohTxState {
    Idle,
    PendingResponse,
    ReadingResponse { body: Vec<u8>, query_id: u16 },
}

#[verifier::ext_equal]
pub enum DohTxStateView {
    Idle,
    PendingResponse,
    ReadingResponse { body: Seq<u8>, query_id: u16 },
}

impl View for DohTxState {
    type V = DohTxStateView;

    open spec fn view(&self) -> DohTxStateView {
        match self {
            DohTxState::Idle => DohTxStateView::Idle,
            DohTxState::PendingResponse => DohTxStateView::PendingResponse,
            DohTxState::ReadingResponse { body, query_id } => DohTxStateView::ReadingResponse {
                body: body@,
                query_id: *query_id,
            },
        }
    }
}

/// What a session that is asked whether it can send does next.
#[derive(Clone, Copy, PartialEq, Eq, Structural, Debug)]
pub enum DohStep {
    /// It can send.
    Ready,
    /// It has to wait.
    Pending,
    /// It looks whether the response is there.
    PollResponse,
    /// It looks for more of the body.
    PollData,
}

/// Opens sessions with one resolver.
pub struct DohDatagramAdapterFactory {
    pub url: UriParts,
}

/// A session with a resolver.
pub struct DohDatagramAdapter {
    pub url: UriParts,
    pub tx_state: DohTxState,
    /// Whether responses can still be handed back.
    pub open: bool,
    pub current_query_id: u16,
}

fn binary(url: &UriParts, buf: Vec<u8>) -> (r: DohRequest)
    ensures
        r@ == binary_request(url@, buf@),
{
    let mut length: Vec<char> = Vec::new();
    push_decimal(&mut length, buf.len() as u64);
    assert(length@ =~= decimal(buf@.len()));
    let r = DohRequest {
        get: false,
        uri: url.text.clone(),
        accept: "application/dns-message".to_string(),
        content_type: Some("application/dns-message".to_string()),
        content_length: Some(string_of(length.as_slice())),
        body: buf,
    };
    assert(r@ =~= binary_request(url@, buf@));
    r
}

/// How a query is sent, given what it asks for.
pub fn build_request(url: &UriParts, buf: Vec<u8>, query: &Option<DnsQueryInfo>) -> (r: DohRequest)
    ensures
        r@ == request_for(
            url@,
            buf@,
            match query {
                Some(q) => Some(q@),
                None => None,
            },
        ),
{
    match query {
        Some(q) => {
            if is_json_api(url.path.as_str()) {
                let mut uri = url.text.clone();
                uri.append("?");
                uri.append(dns_query_to_doh_params(q).as_str());
                proof {
                    reveal_strlit("?");
                    reveal_strlit("name=");
                    reveal_strlit("?name=");
                    assert("?name="@ =~= "?"@ + "name="@);
                }
                let r = DohRequest {
                    get: true,
                    uri,
                    accept: "application/dns-json".to_string(),
                    content_type: None,
                    content_length: None,
                    body: Vec::new(),
                };
                assert(r@ =~= json_request(url@, q@));
                r
            } else {
                binary(url, buf)
            }
        },
        None => binary(url, buf),
    }
}

/// What is handed back for the body of a response, given the DNS message that it spells as JSON,
/// where it spells one.
pub fn build_message(url: &UriParts, body: Vec<u8>, packet: Option<Vec<u8>>) -> (r: Vec<u8>)
    ensures
        r@ == message_for(
            url@,
            body@,
            match packet {
                Some(p) => Some(p@),
                None => None,
            },
        ),
{
    match packet {
        Some(p) => if is_json_api(url.path.as_str()) {
            p
        } else {
            body
        },
        None => body,
    }
}

impl DohDatagramAdapterFactory {
    pub fn new(url: UriParts) -> (r: Self)
        ensures
            r.url == url,
    {
        DohDatagramAdapterFactory { url }
    }

    /// A factory for the resolver that a configuration names; nothing where it names none.
    pub fn from_text(url: &str) -> (r: Option<Self>)
        ensures
            match r {
                Some(f) => uri_parts(url@) == Some(f.url@),
                None => uri_parts(url@) is None,
            },
    {
        match parse_uri(url) {
            Some(u) => Some(DohDatagramAdapterFactory::new(u)),
            None => None,
        }
    }

    /// A new session.
    pub fn bind(self) -> (r: DohDatagramAdapter)
        ensures
            r.url == self.url,
            r.tx_state is Idle,
            r.open,
            r.current_query_id == 0,
    {
        DohDatagramAdapter {
            url: self.url,
            tx_state: DohTxState::Idle,
            open: true,
            current_query_id: 0,
        }
    }
}

impl DohDatagramAdapter {
    /// Where a response is said to come from.
    pub fn recv_from(&self) -> (r: DestinationAddr)
        ensures
            r@ == (DestView {
                host: HostView::Ip(IpAddr::V4(Ipv4Addr { bits: 0x01010101 })),
                port: 53,
            }),
    {
        DestinationAddr { host: HostName::Ip(IpAddr::V4(Ipv4Addr { bits: 0x01010101 })), port: 53 }
    }

    /// What is done next. `sender_ready` says whether a response could be handed back now.
    pub fn poll_send_ready(&self, sender_ready: bool) -> (r: DohStep)
        ensures
            r == (if !self.open {
                DohStep::Ready
            } else if !sender_ready {
                DohStep::Pending
            } else {
                match self.tx_state {
                    DohTxState::Idle => DohStep::Ready,
                    DohTxState::PendingResponse => DohStep::PollResponse,
                    DohTxState::ReadingResponse { .. } => DohStep::PollData,
                }
            }),
    {
        if !self.open {
            return DohStep::Ready;
        }
        if !sender_ready {
            return DohStep::Pending;
        }
        match &self.tx_state {
            DohTxState::Idle => DohStep::Ready,
            DohTxState::PendingResponse => DohStep::PollResponse,
            DohTxState::ReadingResponse { .. } => DohStep::PollData,
        }
    }

    /// The response is there, whatever its status, or the request failed.
    pub fn on_response(&mut self, ok: bool)
        requires
            old(self).tx_state is PendingResponse,
        ensures
            final(self).url == old(self).url,
            final(self).current_query_id == old(self).current_query_id,
            final(self).open == (old(self).open && ok),
            final(self).tx_state@ == (if ok {
                DohTxStateView::ReadingResponse {
                    body: Seq::empty(),
                    query_id: old(self).current_query_id,
                }
            } else {
                DohTxStateView::Idle
            }),
    {
        if ok {
            self.tx_state = DohTxState::ReadingResponse {
                body: Vec::new(),
                query_id: self.current_query_id,
            };
            assert(self.tx_state@ =~= (DohTxStateView::ReadingResponse {
                body: Seq::empty(),
                query_id: old(self).current_query_id,
            }));
        } else {
            self.tx_state = DohTxState::Idle;
            self.open = false;
        }
    }

    /// More of the body is there.
    pub fn on_chunk(&mut self, chunk: &[u8])
        requires
            old(self).tx_state is ReadingResponse,
        ensures
            final(self).url == old(self).url,
            final(self).current_query_id == old(self).current_query_id,
            final(self).open == old(self).open,
            final(self).tx_state@ == (DohTxStateView::ReadingResponse {
                body: old(self).tx_state@->body + chunk@,
                query_id: old(self).tx_state@->query_id,
            }),
    {
        let mut state = DohTxState::Idle;
        std::mem::swap(&mut state, &mut self.tx_state);
        if let DohTxState::ReadingResponse { body, query_id } = state {
            let mut body = body;
            let mut more: Vec<u8> = slice_to_vec(chunk);
            body.append(&mut more);
            self.tx_state = DohTxState::ReadingResponse { body, query_id };
        }
    }

    /// Reading the body failed.
    pub fn on_data_error(&mut self)
        requires
            old(self).tx_state is ReadingResponse,
        ensures
            final(self).url == old(self).url,
            final(self).current_query_id == old(self).current_query_id,
            !final(self).open,
            final(self).tx_state is Idle,
    {
        self.tx_state = DohTxState::Idle;
        self.open = false;
    }

    /// The body is complete: what is handed back.
    pub fn on_end(&mut self) -> (r: Vec<u8>)
        requires
            old(self).tx_state is ReadingResponse,
        ensures
            final(self).url == old(self).url,
            final(self).current_query_id == old(self).current_query_id,
            final(self).open == old(self).open,
            final(self).tx_state is Idle,
            r@ == message_for(
                old(self).url@,
                old(self).tx_state@->body,
                json_packet(old(self).tx_state@->body, old(self).tx_state@->query_id),
            ),
    {
        let mut state = DohTxState::Idle;
        std::mem::swap(&mut state, &mut self.tx_state);
        match state {
            DohTxState::ReadingResponse { body, query_id } => {
                let packet = if is_json_api(self.url.path.as_str()) {
                    match str_from_utf8(body.as_slice()) {
                        Some(text) => json_to_dns_message(text, query_id),
                        None => None,
                    }
                } else {
                    None
                };
                build_message(&self.url, body, packet)
            },
            _ => Vec::new(),
        }
    }

    /// What became of the response that was handed back.
    pub fn on_sent(&mut self, ok: bool)
        ensures
            final(self).url == old(self).url,
            final(self).current_query_id == old(self).current_query_id,
            final(self).tx_state == old(self).tx_state,
            final(self).open == (old(self).open && ok),
    {
        if !ok {
            self.open = false;
        }
    }

    /// How a query is sent. Its identifier is kept for the response, where the query can be read.
    pub fn send_to(&mut self, buf: Vec<u8>) -> (r: DohRequest)
        ensures
            r@ == request_for(old(self).url@, buf@, first_query(query_message(buf@))),
            final(self).url == old(self).url,
            final(self).open == old(self).open,
            final(self).tx_state is PendingResponse,
            final(self).current_query_id == (match first_query(query_message(buf@)) {
                Some(q) => q.dns_id,
                None => old(self).current_query_id,
            }),
    {
        let query = parse_dns_query(buf.as_slice());
        if let Some(q) = &query {
            self.current_query_id = q.dns_id;
        }
        self.tx_state = DohTxState::PendingResponse;
        build_request(&self.url, buf, &query)
    }
}

/// The message that is made of a JSON answer bears the identifier of the query, though the JSON
/// interface carries none.
pub proof fn query_id_is_kept(query: DnsQueryInfoView, body: Seq<u8>)
    requires
        json_packet(body, query.dns_id) is Some,
    ensures
        json_packet(body, query.dns_id)->0.len() >= 2,
        json_packet(body, query.dns_id)->0.subrange(0, 2) == be_bytes(query.dns_id as nat, 2),
{
    crate::be::lemma_be_bytes_len(query.dns_id as nat, 2);
    assert(json_packet(body, query.dns_id)->0.subrange(0, 2) =~= be_bytes(query.dns_id as nat, 2));
}

// ---- Laws: a session ----
/// A query goes to the JSON interface as its name and its type, and to the binary interface as the
/// message itself. A message that cannot be read goes as it is.
pub proof fn queries_are_sent_whole(
    s: &mut DohDatagramAdapter,
    buf: Vec<u8>,
    r: DohRequest,
    m: crate::deps::dns_proto::QueryMessageView,
)
    requires
        call_ensures(DohDatagramAdapter::send_to, (s, buf), r),
    ensures
        r.get ==> is_json_path(old(s).url@.path),
        !r.get ==> r@.body == buf@ && r@.uri == old(s).url@.text && r@.content_length == Some(
            decimal(buf@.len()),
        ) && r@.content_type == Some("application/dns-message"@) && r@.accept
            == "application/dns-message"@,
        r.get ==> r@.accept == "application/dns-json"@ && r@.content_type is None
            && r@.content_length is None && r@.body.len() == 0,
        query_message(buf@) == Some(m) && m.queries.len() > 0 && is_json_path(old(s).url@.path)
            ==> r.get && r@.uri == old(s).url@.text + "?name="@ + m.queries[0].0 + "&type="@
            + record_type_name(m.queries[0].1) && final(s).current_query_id == m.id,
        query_message(buf@) is None ==> !r.get,
        final(s).tx_state is PendingResponse,
{
}

/// The path of the JSON interface ends with `/resolve` or `/resolver`.
pub proof fn json_paths_end_with_resolve(before: Seq<char>, path: Seq<char>)
    ensures
        is_json_path(before + "/resolve"@),
        is_json_path(before + "/resolver"@),
        is_json_path(path) ==> (exists|front: Seq<char>| #[trigger]
            ends_as(path, front, "/resolve"@)) || exists|front: Seq<char>| #[trigger]
            ends_as(path, front, "/resolver"@),
{
    let (a, b) = ("/resolve"@, "/resolver"@);
    assert((before + a).subrange(before.len() as int, (before + a).len() as int) =~= a);
    assert((before + b).subrange(before.len() as int, (before + b).len() as int) =~= b);
    if ends_with(path, a) {
        let front = path.subrange(0, path.len() - a.len());
        assert(path =~= front + path.subrange(path.len() - a.len(), path.len() as int));
        assert(ends_as(path, front, a));
    }
    if ends_with(path, b) {
        let front = path.subrange(0, path.len() - b.len());
        assert(path =~= front + path.subrange(path.len() - b.len(), path.len() as int));
        assert(ends_as(path, front, b));
    }
}

/// Whether a text is `front` with `end` behind it.
pub open spec fn ends_as(text: Seq<char>, front: Seq<char>, end: Seq<char>) -> bool {
    text == front + end
}

/// The body of a response is put together from its pieces in their order, and bears the identifier of
/// the query that was sent.
pub proof fn bodies_are_put_together(
    s: &mut DohDatagramAdapter,
    first: &mut DohDatagramAdapter,
    a: &[u8],
    second: &mut DohDatagramAdapter,
    b: &[u8],
    end: &mut DohDatagramAdapter,
    r: Vec<u8>,
)
    requires
        s.tx_state is PendingResponse,
        call_ensures(DohDatagramAdapter::on_response, (s, true), ()),
        *first == *final(s),
        call_ensures(DohDatagramAdapter::on_chunk, (first, a), ()),
        *second == *final(first),
        call_ensures(DohDatagramAdapter::on_chunk, (second, b), ()),
        *end == *final(second),
        call_ensures(DohDatagramAdapter::on_end, (end,), r),
    ensures
        !is_json_path(old(s).url@.path) ==> r@ == a@ + b@,
        is_json_path(old(s).url@.path) ==> r@ == (match json_packet(
            a@ + b@,
            old(s).current_query_id,
        ) {
            Some(p) => p,
            None => a@ + b@,
        }),
        final(end).tx_state is Idle,
        final(end).open == old(s).open,
        final(end).url == old(s).url,
{
    assert(Seq::<u8>::empty() + a@ + b@ =~= a@ + b@);
}

/// A session that waits for a response looks for it, one that reads a body looks for more, and one
/// that does neither can send, as long as what comes can be handed back. A session that is closed does
/// not hold anybody up.
pub proof fn sessions_wait_for_what_they_need(s: &DohDatagramAdapter, ready: bool, r: DohStep)
    requires
        call_ensures(DohDatagramAdapter::poll_send_ready, (s, ready), r),
    ensures
        !s.open ==> r is Ready,
        s.open && !ready ==> r is Pending,
        s.open && ready ==> (r is Ready <==> s.tx_state is Idle),
        s.open && ready ==> (r is PollResponse <==> s.tx_state is PendingResponse),
        s.open && ready ==> (r is PollData <==> s.tx_state is ReadingResponse),
{
}

/// A session stays open until a request, a body or the way back fails; once closed, it stays closed.
pub proof fn sessions_close_on_failure(
    s: &mut DohDatagramAdapter,
    ok: bool,
    t: &mut DohDatagramAdapter,
    u: &mut DohDatagramAdapter,
    sent: bool,
)
    requires
        s.tx_state is PendingResponse,
        call_ensures(DohDatagramAdapter::on_response, (s, ok), ()),
        t.tx_state is ReadingResponse,
        call_ensures(DohDatagramAdapter::on_data_error, (t,), ()),
        call_ensures(DohDatagramAdapter::on_sent, (u, sent), ()),
    ensures
        final(s).open <==> old(s).open && ok,
        !ok ==> final(s).tx_state is Idle,
        ok ==> final(s).tx_state@ == (DohTxStateView::ReadingResponse {
            body: Seq::<u8>::empty(),
            query_id: old(s).current_query_id,
        }),
        !final(t).open && final(t).tx_state is Idle,
        final(u).open <==> old(u).open && sent,
{
}

/// What a binary resolver says is handed back as it is; what a JSON resolver says is handed back as the
/// DNS message that it spells, or as it is where it spells none.
pub proof fn bodies_are_handed_back(
    url: &UriParts,
    body: Vec<u8>,
    packet: Option<Vec<u8>>,
    r: Vec<u8>,
)
    requires
        call_ensures(build_message, (url, body, packet), r),
    ensures
        !is_json_path(url@.path) || packet is None ==> r@ == body@,
        is_json_path(url@.path) ==> (packet matches Some(p) ==> r@ == p@),
{
}

/// Only text that is JSON spells a message.
pub proof fn only_json_spells_messages(body: Seq<u8>, id: u16)
    ensures
        json_packet(body, id) is Some ==> valid_utf8(body) && is_json(decode_utf8(body)),
        valid_utf8(body) && is_json(decode_utf8(body)) ==> json_packet(body, id) == response_bytes(
            json_response(decode_utf8(body), id),
        ),
{
}

/// A session with the resolver that a text names can send at once, and what comes back is said to come from
/// 1.1.1.1.
pub proof fn sessions_begin_ready(
    text: &str,
    f: Option<DohDatagramAdapterFactory>,
    s: DohDatagramAdapter,
    from: DestinationAddr,
)
    requires
        call_ensures(DohDatagramAdapterFactory::from_text, (text,), f),
        f matches Some(g) ==> call_ensures(DohDatagramAdapterFactory::bind, (g,), s),
        call_ensures(DohDatagramAdapter::recv_from, (&s,), from),
    ensures
        f is Some <==> uri_parts(text@) is Some,
        f matches Some(g) ==> Some(s.url@) == uri_parts(text@) && s.tx_state is Idle && s.open,
        from@.host == HostView::Ip(
            IpAddr::V4(
                Ipv4Addr { bits: (0x100_0000 + 0x1_0000 + 0x100 + 1) as u32 },
            ),
        ),
{
}

} // verus!
