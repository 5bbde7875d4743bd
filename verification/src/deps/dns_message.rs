//! DNS messages on the wire, from `hickory-proto`.
use hickory_proto::op::Message;
use hickory_proto::op::OpCode;
use hickory_proto::rr::rdata::A;
use hickory_proto::rr::RData;
use hickory_proto::rr::Record;
use vstd::prelude::*;

verus! {

/// A question of a request: the name in its ASCII form, and the number of the record type.
pub struct DnsQuestion {
    pub name: String,
    pub qtype: u16,
}

/// What is read of a request.
pub struct DnsRequest {
    pub id: u16,
    pub op_code: u8,
    pub recursion_desired: bool,
    pub checking_disabled: bool,
    pub questions: Vec<DnsQuestion>,
}

/// What is written in a reply besides what it repeats of its request.
pub struct DnsReply {
    pub id: u16,
    pub op_code: u8,
    pub response_code: u16,
    pub authoritative: bool,
    pub recursion_available: bool,
    pub recursion_desired: bool,
    pub checking_disabled: bool,
    /// How many of the questions of the request are repeated.
    pub questions: usize,
    /// Addresses of the name in the first question, each with its time to live.
    pub answers: Vec<(u32, u32)>,
}

#[verifier::ext_equal]
pub struct DnsQuestionView {
    pub name: Seq<char>,
    pub qtype: u16,
}

#[verifier::ext_equal]
pub struct DnsRequestView {
    pub id: u16,
    pub op_code: u8,
    pub recursion_desired: bool,
    pub checking_disabled: bool,
    pub questions: Seq<DnsQuestionView>,
}

#[verifier::ext_equal]
pub struct DnsReplyView {
    pub id: u16,
    pub op_code: u8,
    pub response_code: u16,
    pub authoritative: bool,
    pub recursion_available: bool,
    pub recursion_desired: bool,
    pub checking_disabled: bool,
    pub questions: nat,
    pub answers: Seq<(u32, u32)>,
}

impl View for DnsQuestion {
    type V = DnsQuestionView;

    open spec fn view(&self) -> DnsQuestionView {
        DnsQuestionView { name: self.name@, qtype: self.qtype }
    }
}

impl View for DnsRequest {
    type V = DnsRequestView;

    open spec fn view(&self) -> DnsRequestView {
        DnsRequestView {
            id: self.id,
            op_code: self.op_code,
            recursion_desired: self.recursion_desired,
            checking_disabled: self.checking_disabled,
            questions: self.questions@.map_values(|q: DnsQuestion| q@),
        }
    }
}

impl View for DnsReply {
    type V = DnsReplyView;

    open spec fn view(&self) -> DnsReplyView {
        DnsReplyView {
            id: self.id,
            op_code: self.op_code,
            response_code: self.response_code,
            authoritative: self.authoritative,
            recursion_available: self.recursion_available,
            recursion_desired: self.recursion_desired,
            checking_disabled: self.checking_disabled,
            questions: self.questions as nat,
            answers: self.answers@,
        }
    }
}

/// The request that a payload spells, if it spells a DNS message.
pub uninterp spec fn dns_request(payload: Seq<u8>) -> Option<DnsRequestView>;

/// The bytes of a reply to the request in a payload. The reply repeats the extensions (EDNS) of the
/// request.
pub uninterp spec fn dns_reply(payload: Seq<u8>, reply: DnsReplyView) -> Option<Seq<u8>>;

/// Decodes with `hickory_proto::op::Message::from_vec`, and reads the identifier, the operation,
/// the two flags and the questions of the message. How a message is spelt is not stated.
#[verifier::external_body]
pub(crate) fn decode_request(payload: &[u8]) -> (r: Option<DnsRequest>)
    ensures
        match r {
            Some(m) => dns_request(payload@) == Some(m@),
            None => dns_request(payload@) is None,
        },
{
    let m = Message::from_vec(payload).ok()?;
    let questions = m.queries().iter().map(|q| DnsQuestion {
        name: q.name().to_ascii(),
        qtype: q.query_type().into(),
    });
    Some(DnsRequest {
        id: m.id(),
        op_code: m.op_code().into(),
        recursion_desired: m.recursion_desired(),
        checking_disabled: m.checking_disabled(),
        questions: questions.collect(),
    })
}

/// Builds a `hickory_proto::op::Message` for a reply and encodes it with `Message::to_vec`. `None`
/// where the payload holds no request with a question, or where the encoding fails. How a message
/// is spelt is not stated.
#[verifier::external_body]
pub(crate) fn encode_reply(payload: &[u8], reply: &DnsReply) -> (r: Option<Vec<u8>>)
    ensures
        match r {
            Some(b) => dns_reply(payload@, reply@) == Some(b@),
            None => dns_reply(payload@, reply@) is None,
        },
{
    let request = Message::from_vec(payload).ok()?;
    let name = request.query()?.name();
    let mut m = Message::error_msg(reply.id, OpCode::from_u8(reply.op_code), reply.response_code.into());
    m.set_authoritative(reply.authoritative).set_recursion_available(reply.recursion_available);
    m.set_recursion_desired(reply.recursion_desired).set_checking_disabled(reply.checking_disabled);
    m.extensions_mut().clone_from(request.extensions());
    m.add_queries(request.queries().iter().take(reply.questions).cloned());
    for (ttl, ip) in &reply.answers {
        m.add_answer(Record::from_rdata(name.clone(), *ttl, RData::A(A((*ip).into()))));
    }
    m.to_vec().ok()
}

} // verus!
