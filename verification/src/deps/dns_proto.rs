//! DNS messages on the wire, from the protocol crate of `trust-dns-resolver`.
use trust_dns_resolver::proto::op::Message;
use trust_dns_resolver::proto::op::MessageType;
use trust_dns_resolver::proto::op::Query;
use trust_dns_resolver::proto::rr::Name;
use trust_dns_resolver::proto::rr::RData;
use trust_dns_resolver::proto::rr::Record;
use trust_dns_resolver::proto::serialize::binary::BinDecodable;
use trust_dns_resolver::proto::serialize::binary::BinEncodable;
use trust_dns_resolver::proto::serialize::binary::BinEncoder;
use vstd::multiset::Multiset;
use vstd::prelude::*;

use crate::net::IpAddr;
use crate::net_text::ipv4_of;

verus! {

/// What is read of a query message: the identifier, and the questions, each with its name in lower
/// case and the number of its record type.
pub struct QueryMessage {
    pub id: u16,
    pub queries: Vec<(String, u16)>,
}

#[verifier::ext_equal]
pub struct QueryMessageView {
    pub id: u16,
    pub queries: Seq<(Seq<char>, u16)>,
}

impl View for QueryMessage {
    type V = QueryMessageView;

    open spec fn view(&self) -> QueryMessageView {
        QueryMessageView { id: self.id, queries: crate::tables::named(self.queries@) }
    }
}

/// The data of an answer, by its record type: an address as a number, or a name in text.
pub enum AnswerData {
    A(u32),
    Aaaa(u128),
    Cname(String),
}

#[verifier::ext_equal]
pub enum AnswerDataView {
    A(u32),
    Aaaa(u128),
    Cname(Seq<char>),
}

impl View for AnswerData {
    type V = AnswerDataView;

    open spec fn view(&self) -> AnswerDataView {
        match self {
            AnswerData::A(ip) => AnswerDataView::A(*ip),
            AnswerData::Aaaa(ip) => AnswerDataView::Aaaa(*ip),
            AnswerData::Cname(s) => AnswerDataView::Cname(s@),
        }
    }
}

/// An answer, with its names in text.
pub struct Answer {
    pub name: String,
    pub ttl: u32,
    pub data: AnswerData,
}

#[verifier::ext_equal]
pub struct AnswerView {
    pub name: Seq<char>,
    pub ttl: u32,
    pub data: AnswerDataView,
}

impl View for Answer {
    type V = AnswerView;

    open spec fn view(&self) -> AnswerView {
        AnswerView { name: self.name@, ttl: self.ttl, data: self.data@ }
    }
}

/// A response that is made from nothing.
pub struct Response {
    pub id: u16,
    pub response_code: u16,
    pub authoritative: bool,
    pub recursion_desired: bool,
    pub recursion_available: bool,
    /// The question, if any: its name in text, and the number of its record type.
    pub questions: Vec<(String, u16)>,
    pub answers: Vec<Answer>,
}

#[verifier::ext_equal]
pub struct ResponseView {
    pub id: u16,
    pub response_code: u16,
    pub authoritative: bool,
    pub recursion_desired: bool,
    pub recursion_available: bool,
    pub questions: Seq<(Seq<char>, u16)>,
    pub answers: Seq<AnswerView>,
}

impl View for Response {
    type V = ResponseView;

    open spec fn view(&self) -> ResponseView {
        ResponseView {
            id: self.id,
            response_code: self.response_code,
            authoritative: self.authoritative,
            recursion_desired: self.recursion_desired,
            recursion_available: self.recursion_available,
            questions: crate::tables::named(self.questions@),
            answers: self.answers@.map_values(|a: Answer| a@),
        }
    }
}

/// The query message that bytes spell, if they spell a DNS message.
pub uninterp spec fn query_message(bytes: Seq<u8>) -> Option<QueryMessageView>;

/// A response whose extension record may hold options in any order: the bytes in front of the
/// options, the options, each with its code and its length, and the bytes behind them.
#[verifier::ext_equal]
pub struct AnsweredView {
    pub front: Seq<u8>,
    pub options: Multiset<Seq<u8>>,
    pub back: Seq<u8>,
}

impl AnsweredView {
    /// Whether bytes are the response with its options in the order `order`.
    pub open spec fn in_order(self, bytes: Seq<u8>, order: Seq<Seq<u8>>) -> bool {
        order.to_multiset() == self.options && bytes == self.front + order.flatten() + self.back
    }

    /// Whether bytes are the response with its options in some order.
    pub open spec fn spelt_by(self, bytes: Seq<u8>) -> bool {
        exists|order: Seq<Seq<u8>>| #[trigger] self.in_order(bytes, order)
    }
}

/// The longest message that there is.
pub const MAX_MESSAGE: usize = 65535;

/// The bytes that parts of a message take where no name is shortened by a pointer: the names of its
/// questions, and the records that are written behind the answers. `None` stands for a part that
/// cannot be written.
pub struct QuerySizes {
    pub names: Vec<Option<usize>>,
    pub behind: Vec<Option<usize>>,
}

#[verifier::ext_equal]
pub struct QuerySizesView {
    pub names: Seq<Option<usize>>,
    pub behind: Seq<Option<usize>>,
}

impl View for QuerySizes {
    type V = QuerySizesView;

    open spec fn view(&self) -> QuerySizesView {
        QuerySizesView { names: self.names@, behind: self.behind@ }
    }
}

/// What sizes add up to, each with `more` bytes; nothing where one is not known.
pub open spec fn sum_of(s: Seq<Option<usize>>, more: nat) -> Option<nat>
    decreases s.len(),
{
    if s.len() == 0 {
        Some(0)
    } else {
        match (sum_of(s.drop_last(), more), s.last()) {
            (Some(n), Some(k)) => Some(n + k as nat + more),
            _ => None,
        }
    }
}

/// The bytes of an answer, behind its name: its type, its class, its time to live, its length and
/// its address.
pub open spec fn address_size(ip: IpAddr) -> nat {
    match ip {
        IpAddr::V4(_) => 14,
        IpAddr::V6(_) => 26,
    }
}

impl QuerySizesView {
    /// The bytes of the header, the questions and the records behind the answers.
    pub open spec fn fixed(self) -> Option<nat> {
        match (sum_of(self.names, 4), sum_of(self.behind, 0)) {
            (Some(n), Some(b)) => Some(12 + n + b),
            _ => None,
        }
    }

    /// The bytes of answers, each with the name of its question.
    pub open spec fn answers_size(self, answers: Seq<(usize, IpAddr)>) -> nat
        decreases answers.len(),
    {
        if answers.len() == 0 {
            0
        } else {
            let (q, ip) = answers.last();
            let name = if q < self.names.len() && self.names[q as int] is Some {
                self.names[q as int]->0 as nat
            } else {
                0
            };
            self.answers_size(answers.drop_last()) + name + address_size(ip)
        }
    }

    /// Whether a message has room for all of it, with no name shortened.
    pub open spec fn fits(self, answers: Seq<(usize, IpAddr)>) -> bool {
        self.fixed() matches Some(n) && n + self.answers_size(answers) <= MAX_MESSAGE
    }

    /// Whether the response can be written: it fits, or there is nothing behind the answers that do
    /// not.
    pub open spec fn has_room(self, answers: Seq<(usize, IpAddr)>) -> bool {
        self.behind.len() == 0 || self.fits(answers)
    }
}

/// The sizes of the parts of a query message.
pub uninterp spec fn query_sizes(bytes: Seq<u8>) -> Option<QuerySizesView>;

/// Whether the response to a message can be written, if it is one.
pub open spec fn has_room(bytes: Seq<u8>, answers: Seq<(usize, IpAddr)>) -> bool {
    query_sizes(bytes) matches Some(s) ==> s.has_room(answers)
}

/// Whether the response to a message fits: its questions, and the answers too where something is
/// written behind them. Answers that are last are left out where they do not fit.
pub open spec fn response_fits(bytes: Seq<u8>, answers: Seq<(usize, IpAddr)>) -> bool {
    query_sizes(bytes) matches Some(s) && s.fits(
        if s.behind.len() == 0 {
            Seq::empty()
        } else {
            answers
        },
    )
}

/// Whether each answer is for one of `n` questions.
pub open spec fn answers_below(answers: Seq<(usize, IpAddr)>, n: nat) -> bool {
    forall|i: int| 0 <= i < answers.len() ==> (#[trigger] answers[i]).0 < n
}

/// Whether a text holds ASCII only, and no escape.
pub open spec fn is_plain(text: Seq<char>) -> bool {
    forall|i: int| 0 <= i < text.len() ==> #[trigger] text[i] <= '\u{7f}' && text[i] != '\\'
}

/// The most bytes that a name takes, as its text is long: a plain text gets no longer but for the
/// length of its first part and the end. No name is longer than 256 bytes.
pub open spec fn name_bound(text: Seq<char>) -> nat {
    if is_plain(text) {
        text.len() + 2
    } else {
        256
    }
}

/// The most bytes that questions take.
pub open spec fn questions_bound(s: Seq<(Seq<char>, u16)>) -> nat
    decreases s.len(),
{
    if s.len() == 0 {
        0
    } else {
        questions_bound(s.drop_last()) + name_bound(s.last().0) + 4
    }
}

/// The most bytes that answers take.
pub open spec fn answers_bound(s: Seq<AnswerView>) -> nat
    decreases s.len(),
{
    if s.len() == 0 {
        0
    } else {
        answers_bound(s.drop_last()) + name_bound(s.last().name) + 10 + match s.last().data {
            AnswerDataView::A(_) => 4,
            AnswerDataView::Aaaa(_) => 16,
            AnswerDataView::Cname(name) => name_bound(name),
        }
    }
}

/// Whether a message has room for questions and answers, with no name shortened.
pub open spec fn all_fit(questions: Seq<(Seq<char>, u16)>, answers: Seq<AnswerView>) -> bool {
    12 + questions_bound(questions) + answers_bound(answers) <= MAX_MESSAGE
}

/// The query message `bytes` turned into a response with a response code and answers, each answer
/// an address of the name in the question with the given number.
pub uninterp spec fn answered_message(bytes: Seq<u8>, response_code: u16, ttl: u32, answers: Seq<(usize, IpAddr)>) -> Option<AnsweredView>;

/// The bytes, behind its identifier, of a message with the given header, questions and answers. The
/// counts in the header are set anew.
pub uninterp spec fn response_message(header: Seq<u8>, questions: Seq<(Seq<char>, u16)>, answers: Seq<AnswerView>) -> Option<Seq<u8>>;

/// Whether a text is a domain name.
pub uninterp spec fn is_dns_name(text: Seq<char>) -> bool;

/// The address, as a number, that the text of an `AAAA` record spells.
pub uninterp spec fn aaaa_record_data(text: Seq<char>) -> Option<u128>;

/// The text of an `AAAA` record with the given address.
pub uninterp spec fn aaaa_record_text(bits: u128) -> Seq<char>;

/// Writes the address that an `RData::AAAA` holds with its `Display`, which is that of `Ipv6Addr` of
/// the standard library. How an address is spelt is not stated.
#[verifier::external_body]
pub(crate) fn write_aaaa_data(bits: u128) -> (r: String)
    ensures
        r@ == aaaa_record_text(bits),
{
    RData::AAAA(bits.into()).to_string()
}

/// Decodes with `Message::from_bytes`, and reads the identifier and the questions. How a message is
/// spelt is not stated.
#[verifier::external_body]
pub(crate) fn decode_query(bytes: &[u8]) -> (r: Option<QueryMessage>)
    ensures
        match r {
            Some(m) => query_message(bytes@) == Some(m@),
            None => query_message(bytes@) is None,
        },
{
    let m = Message::from_bytes(bytes).ok()?;
    let queries = m.queries().iter().map(|q| (q.name().to_lowercase().to_ascii(), q.query_type().into()));
    Some(QueryMessage { id: m.id(), queries: queries.collect() })
}

/// Decodes with `Message::from_bytes`, and measures the names of the questions and the records behind
/// the answers, each as `BinEncodable::emit` writes it by itself with canonical names, which are not
/// shortened. There are as many names as questions. How a message is spelt is not stated.
#[verifier::external_body]
pub(crate) fn measure_query(bytes: &[u8]) -> (r: Option<QuerySizes>)
    ensures
        match r {
            Some(s) => query_sizes(bytes@) == Some(s@),
            None => query_sizes(bytes@) is None,
        },
        r is Some <==> query_message(bytes@) is Some,
        r matches Some(s) ==> query_message(bytes@) matches Some(m) && s.names@.len()
            == m.queries.len(),
{
    let m = Message::from_bytes(bytes).ok()?;
    let size = |part: &dyn BinEncodable| {
        let mut buf = Vec::new();
        let mut encoder = BinEncoder::new(&mut buf);
        encoder.set_canonical_names(true);
        part.emit(&mut encoder).ok().map(|()| encoder.len())
    };
    let records = m.name_servers().iter().chain(m.additionals()).chain(m.sig0());
    let behind = records.map(|r| size(r)).chain(m.extensions().iter().map(|e| size(e)));
    Some(QuerySizes {
        names: m.queries().iter().map(|q| size(q.name())).collect(),
        behind: behind.collect(),
    })
}

/// Turns a query message into its response and encodes it with `Message::to_vec`. `None` where the
/// bytes are no message, where a question is not there, or where the encoding fails. A response
/// bears the identifier of the query, is marked as a response, and has the low bits of the response
/// code in its header; how the rest is spelt is not stated. There is a response wherever the parts
/// can be written and fit. The order of the options in the extension record is open, because the
/// crate keeps them in a `HashMap`. The encoder may panic where it writes on behind a record that
/// did not fit, so there has to be room, unless nothing follows the answers.
#[verifier::external_body]
pub(crate) fn encode_answers(bytes: &[u8], response_code: u16, ttl: u32, answers: &[(usize, IpAddr)]) -> (r: Option<Vec<u8>>)
    requires
        has_room(bytes@, answers@),
    ensures
        match r {
            Some(b) => answered_message(bytes@, response_code, ttl, answers@) matches Some(m)
                && m.spelt_by(b@),
            None => answered_message(bytes@, response_code, ttl, answers@) is None,
        },
        r matches Some(b) ==> b@.len() >= 12 && bytes@.len() >= 12 && b@.subrange(0, 2)
            == bytes@.subrange(0, 2) && b@[2] >= 0x80 && b@[3] % 16 == response_code % 16,
        response_fits(bytes@, answers@) && (query_message(bytes@) matches Some(m) && answers_below(
            answers@,
            m.queries.len(),
        )) ==> r is Some,
{
    let mut m = Message::from_bytes(bytes).ok()?;
    let record = |(q, ip): &(usize, IpAddr)| {
        let name = m.queries().get(*q)?.name().clone();
        Some(Record::from_rdata(name, ttl, match ip {
            IpAddr::V4(ip) => RData::A(ip.bits.into()),
            IpAddr::V6(ip) => RData::AAAA(ip.bits.into()),
        }))
    };
    let records: Option<Vec<Record>> = answers.iter().map(record).collect();
    *m.answers_mut() = records?;
    m.set_message_type(MessageType::Response).set_response_code(response_code.into());
    m.to_vec().ok()
}

/// Calls `Name::from_str`: whether a text is a domain name.
#[verifier::external_body]
pub(crate) fn dns_name_ok(text: &str) -> (r: bool)
    ensures
        r == is_dns_name(text@),
{
    text.parse::<Name>().is_ok()
}

/// Parses the address that an `RData::A` holds, which is `Ipv4Addr` of the standard library: a text
/// spells one exactly in dotted decimal notation, with no zero in front of another digit.
#[verifier::external_body]
pub(crate) fn parse_a_data(text: &str) -> (r: Option<u32>)
    ensures
        r == ipv4_of(text@),
{
    match text.parse().map(RData::A) {
        Ok(RData::A(ip)) => Some(ip.into()),
        _ => None,
    }
}

/// Parses the address that an `RData::AAAA` holds. How an address is spelt is not stated.
#[verifier::external_body]
pub(crate) fn parse_aaaa_data(text: &str) -> (r: Option<u128>)
    ensures
        r == aaaa_record_data(text@),
{
    match text.parse().map(RData::AAAA) {
        Ok(RData::AAAA(ip)) => Some(ip.into()),
        _ => None,
    }
}

/// Decodes a header with `Message::from_bytes`, gives it an identifier, adds questions and answers,
/// and encodes the message with `Message::to_vec`. `None` where the header is none, where a name is
/// none, or where the encoding fails. The message begins with the identifier and the flags of the
/// header, but for the flag that says that answers were left out, which is set where they do not
/// fit, and for a reserved flag, which is cleared. How the rest is spelt is not stated.
#[verifier::external_body]
pub(crate) fn encode_response(id: u16, header: &[u8], questions: &[(String, u16)], answers: &[Answer]) -> (r: Option<Vec<u8>>)
    requires
        header@.len() == 12,
    ensures
        match r {
            Some(b) => response_message(
                header@,
                crate::tables::named(questions@),
                answers@.map_values(|a: Answer| a@),
            ) matches Some(rest) && b@ == crate::be::be_bytes(id as nat, 2) + rest,
            None => response_message(
                header@,
                crate::tables::named(questions@),
                answers@.map_values(|a: Answer| a@),
            ) is None,
        },
        r matches Some(b) ==> b@.len() >= 12 && b@[3] == header@[3] / 128 * 128 + header@[3] % 64,
        r matches Some(b) ==> b@[2] == header@[2] || (header@[2] / 2 % 2 == 0 && b@[2] == header@[2]
            + 2 && !all_fit(
            crate::tables::named(questions@),
            answers@.map_values(|a: Answer| a@),
        )),
{
    let mut m = Message::from_bytes(header).ok()?;
    m.set_id(id);
    for (name, rtype) in questions {
        m.add_query(Query::query(name.parse().ok()?, (*rtype).into()));
    }
    for a in answers {
        let data = match &a.data {
            AnswerData::A(ip) => RData::A((*ip).into()),
            AnswerData::Aaaa(ip) => RData::AAAA((*ip).into()),
            AnswerData::Cname(name) => RData::CNAME(name.parse().ok()?),
        };
        m.add_answer(Record::from_rdata(a.name.parse().ok()?, a.ttl, data));
    }
    m.to_vec().ok()
}

} // verus!
