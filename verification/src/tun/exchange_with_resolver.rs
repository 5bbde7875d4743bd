//! Answers to DNS queries out of the fake addresses.
use vstd::prelude::*;

use crate::deps::dns_message::DnsReply;
use crate::deps::dns_message::DnsReplyView;
use crate::deps::dns_message::DnsRequest;
use crate::deps::dns_message::DnsRequestView;
use crate::fakeip::FakeIp;
use crate::net::Ipv4Addr;
use crate::text::chars_of;
use crate::text::drop_trailing;
use crate::text::string_of;
use crate::text::trim_end_char;

verus! {

#[derive(Debug)]
pub enum DNSError {
    InvalidOpQuery(String),
    QueryFailed(String),
}

#[verifier::ext_equal]
pub enum DNSErrorView {
    InvalidOpQuery(Seq<char>),
    QueryFailed(Seq<char>),
}

impl View for DNSError {
    type V = DNSErrorView;

    open spec fn view(&self) -> DNSErrorView {
        match self {
            DNSError::InvalidOpQuery(m) => DNSErrorView::InvalidOpQuery(m@),
            DNSError::QueryFailed(m) => DNSErrorView::QueryFailed(m@),
        }
    }
}

impl DNSError {
    pub fn message(&self) -> (m: String)
        ensures
            m@ == (match *self {
                DNSError::InvalidOpQuery(t) => "Invalid query operation: "@ + t@,
                DNSError::QueryFailed(t) => "DNS query failed: "@ + t@,
            }),
    {
        match self {
            DNSError::InvalidOpQuery(t) => "Invalid query operation: ".to_string().concat(t.as_str()),
            DNSError::QueryFailed(t) => "DNS query failed: ".to_string().concat(t.as_str()),
        }
    }
}

/// How long an answer may be kept, in seconds.
pub const DEFAULT_DNS_SERVER_TTL: u32 = 60;

pub const TYPE_A: u16 = 1;

pub const TYPE_AAAA: u16 = 28;

pub const NO_ERROR: u16 = 0;

pub const NX_DOMAIN: u16 = 3;

pub const REFUSED: u16 = 5;

/// The reply that refuses a query: the question is repeated, nothing is answered.
pub open spec fn refusal_of(req: DnsRequestView) -> DnsReplyView {
    DnsReplyView {
        id: req.id,
        op_code: req.op_code,
        response_code: REFUSED,
        authoritative: true,
        recursion_available: false,
        recursion_desired: req.recursion_desired,
        checking_disabled: req.checking_disabled,
        questions: 1,
        answers: Seq::empty(),
    }
}

/// The reply with the addresses `ips`, of which the first is given.
pub open spec fn answer_of(req: DnsRequestView, ips: Seq<Ipv4Addr>) -> DnsReplyView {
    DnsReplyView {
        id: req.id,
        op_code: 0,
        response_code: if ips.len() > 0 {
            NO_ERROR
        } else {
            NX_DOMAIN
        },
        authoritative: true,
        recursion_available: false,
        recursion_desired: req.recursion_desired,
        checking_disabled: req.checking_disabled,
        questions: req.questions.len(),
        answers: if ips.len() > 0 {
            seq![(DEFAULT_DNS_SERVER_TTL, ips[0].bits)]
        } else {
            Seq::empty()
        },
    }
}

/// The name that a request asks for, without the dots that it ends with.
pub open spec fn host_of(req: DnsRequestView) -> Seq<char> {
    trim_end_char(req.questions[0].name, '.')
}

pub open spec fn reply_view(r: Result<DnsReply, DNSError>) -> Result<DnsReplyView, DNSErrorView> {
    match r {
        Ok(m) => Ok(m@),
        Err(e) => Err(e@),
    }
}

/// Refuses a query.
pub fn refuse(req: &DnsRequest) -> (r: DnsReply)
    ensures
        r@ == refusal_of(req@),
{
    let r = DnsReply {
        id: req.id,
        op_code: req.op_code,
        response_code: REFUSED,
        authoritative: true,
        recursion_available: false,
        recursion_desired: req.recursion_desired,
        checking_disabled: req.checking_disabled,
        questions: 1,
        answers: Vec::new(),
    };
    assert(r@ =~= refusal_of(req@));
    r
}

/// Replies to a query whose name was resolved to `resolved`.
pub fn reply_with(req: &DnsRequest, resolved: Result<Vec<Ipv4Addr>, String>) -> (r: Result<
    DnsReply,
    DNSError,
>)
    ensures
        reply_view(r) == (match resolved {
            Ok(ips) => Ok(answer_of(req@, ips@)),
            Err(e) => Err(DNSErrorView::QueryFailed(e@)),
        }),
{
    match resolved {
        Ok(ips) => {
            let mut answers: Vec<(u32, u32)> = Vec::new();
            let mut response_code: u16 = NX_DOMAIN;
            if ips.len() > 0 {
                answers.push((DEFAULT_DNS_SERVER_TTL, ips[0].bits));
                response_code = NO_ERROR;
            }
            let r = DnsReply {
                id: req.id,
                op_code: 0,
                response_code,
                authoritative: true,
                recursion_available: false,
                recursion_desired: req.recursion_desired,
                checking_disabled: req.checking_disabled,
                questions: req.questions.len(),
                answers,
            };
            assert(r@ =~= answer_of(req@, ips@));
            Ok(r)
        },
        Err(e) => Err(DNSError::QueryFailed(e)),
    }
}

/// Replies to a query with the fake address of its name. Queries for IPv6 addresses are refused.
pub fn exchange_with_resolver(resolver: &mut FakeIp, req: &DnsRequest) -> (r: Result<
    DnsReply,
    DNSError,
>)
    requires
        old(resolver).wf(),
    ensures
        final(resolver).wf(),
        req@.questions.len() == 0 ==> reply_view(r) == Err::<DnsReplyView, DNSErrorView>(
            DNSErrorView::InvalidOpQuery("malformed query message"@),
        ) && *final(resolver) == *old(resolver),
        req@.questions.len() > 0 && req@.questions[0].qtype == TYPE_AAAA ==> reply_view(r) == Ok::<
            DnsReplyView,
            DNSErrorView,
        >(refusal_of(req@)) && *final(resolver) == *old(resolver),
        req@.questions.len() > 0 && req@.questions[0].qtype != TYPE_AAAA ==> {
            let ip = old(resolver).addr_v4(old(resolver).index_of(host_of(req@)));
            &&& reply_view(r) == Ok::<DnsReplyView, DNSErrorView>(answer_of(req@, seq![ip]))
            &&& final(resolver).domain_of(crate::net::IpAddr::V4(ip)) == Some(host_of(req@))
            &&& final(resolver).follows(*old(resolver), host_of(req@))
        },
{
    if req.questions.len() == 0 {
        return Err(DNSError::InvalidOpQuery("malformed query message".to_string()));
    }
    assert(req@.questions[0] == req.questions@[0]@);
    let name = chars_of(req.questions[0].name.as_str());
    let host = string_of(drop_trailing(name.as_slice(), '.'));
    if req.questions[0].qtype == TYPE_AAAA {
        return Ok(refuse(req));
    }
    let (ip, _) = resolver.resolve_ipv4(host);
    let ips: Vec<Ipv4Addr> = vec![ip];
    assert(ips@ =~= seq![ip]);
    reply_with(req, Ok(ips))
}

// ---- Laws ----
/// A query for the IPv4 address of a name is answered with the one fake address of that name, which
/// leads back to the name, and bears the identifier of the query. The dots at the end of a name do not
/// count.
pub proof fn queries_get_fake_addresses(
    f: &mut FakeIp,
    req: &DnsRequest,
    r: Result<DnsReply, DNSError>,
    ip: crate::net::IpAddr,
    name: Option<String>,
)
    requires
        f.wf(),
        req@.questions.len() > 0,
        req@.questions[0].qtype != 28,
        call_ensures(exchange_with_resolver, (f, req), r),
        r matches Ok(m) ==> (m@.answers.len() > 0 ==> ip == crate::net::IpAddr::V4(
            Ipv4Addr { bits: m@.answers[0].1 },
        )),
        call_ensures(FakeIp::lookup_domain_by_fake_ip, (&*final(f), ip), name),
    ensures
        r matches Ok(m) && m@.id == req@.id && m@.response_code == 0 && m@.answers.len() == 1
            && m@.answers[0].0 == 60 && m@.answers[0].1 / 0x1_0000 == old(f).prefix_v4
            && m@.questions == req@.questions.len() && m@.recursion_desired
            == req@.recursion_desired,
        name matches Some(n) && is_without_dots(n@, req@.questions[0].name),
{
    lemma_without_dots(req@.questions[0].name);
}

/// Whether `t` is `s` without the dots that it ends with.
pub open spec fn is_without_dots(t: Seq<char>, s: Seq<char>) -> bool {
    &&& t.is_prefix_of(s)
    &&& t.len() > 0 ==> t.last() != '.'
    &&& forall|i: int| t.len() <= i < s.len() ==> s[i] == '.'
}

pub(crate) proof fn lemma_without_dots(s: Seq<char>)
    ensures
        is_without_dots(trim_end_char(s, '.'), s),
    decreases s.len(),
{
    if s.len() > 0 && s.last() == '.' {
        let rest = s.drop_last();
        let t = trim_end_char(rest, '.');
        lemma_without_dots(rest);
        assert forall|i: int| t.len() <= i < s.len() implies s[i] == '.' by {
            if i < rest.len() {
                assert(rest[i] == s[i]);
            }
        }
        assert(t =~= s.subrange(0, t.len() as int));
    } else {
        assert(s =~= s.subrange(0, s.len() as int));
    }
}

/// A query for IPv6 addresses is refused, without an answer, and no name gets a number for it; one
/// without a question is an error.
pub proof fn other_queries_are_refused(
    f: &mut FakeIp,
    req: &DnsRequest,
    r: Result<DnsReply, DNSError>,
)
    requires
        f.wf(),
        req@.questions.len() == 0 || req@.questions[0].qtype == 28,
        call_ensures(exchange_with_resolver, (f, req), r),
    ensures
        req@.questions.len() == 0 ==> r is Err,
        req@.questions.len() > 0 ==> (r matches Ok(m) && m@.id == req@.id && m@.response_code == 5
            && m@.answers.len() == 0 && m@.questions == 1 && m@.op_code == req@.op_code
            && m@.authoritative && !m@.recursion_available && m@.recursion_desired
            == req@.recursion_desired && m@.checking_disabled == req@.checking_disabled),
        *final(f) == *old(f),
{
}

/// A reply tells the first of the addresses that were resolved, or that there is no such name where
/// there is none; a failure is passed on.
pub proof fn replies_tell_what_was_resolved(
    req: &DnsRequest,
    ips: Vec<Ipv4Addr>,
    r: Result<DnsReply, DNSError>,
    error: String,
    e: Result<DnsReply, DNSError>,
)
    requires
        call_ensures(reply_with, (req, Ok(ips)), r),
        call_ensures(reply_with, (req, Err(error)), e),
    ensures
        r matches Ok(m) && m@.id == req@.id && (if ips@.len() > 0 {
            m@.response_code == 0 && m@.answers == seq![(60u32, ips@[0].bits)]
        } else {
            m@.response_code == 3 && m@.answers.len() == 0
        }) && m@.op_code == 0 && m@.authoritative && !m@.recursion_available && m@.questions
            == req@.questions.len() && m@.recursion_desired == req@.recursion_desired
            && m@.checking_disabled == req@.checking_disabled,
        e matches Err(DNSError::QueryFailed(m)) && m@ == error@,
{
}

} // verus!
