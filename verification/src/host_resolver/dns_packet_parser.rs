//! Between DNS messages and the JSON interface of a resolver.
use vstd::prelude::*;

use crate::be::be_bytes;
use crate::deps::dns_proto::aaaa_record_data;
use crate::deps::dns_proto::all_fit;
use crate::deps::dns_proto::decode_query;
use crate::deps::dns_proto::dns_name_ok;
use crate::deps::dns_proto::encode_response;
use crate::deps::dns_proto::is_dns_name;
use crate::deps::dns_proto::parse_a_data;
use crate::deps::dns_proto::parse_aaaa_data;
use crate::deps::dns_proto::query_message;
use crate::deps::dns_proto::response_message;
use crate::deps::dns_proto::Answer;
use crate::deps::dns_proto::AnswerData;
use crate::deps::dns_proto::AnswerDataView;
use crate::deps::dns_proto::AnswerView;
use crate::deps::dns_proto::QueryMessage;
use crate::deps::dns_proto::QueryMessageView;
use crate::deps::dns_proto::Response;
use crate::deps::dns_proto::ResponseView;
use crate::deps::json::is_json;
use crate::deps::json::json_array_len;
use crate::deps::json::json_array_len_at;
use crate::deps::json::json_str;
use crate::deps::json::json_str_at;
use crate::deps::json::json_u64;
use crate::deps::json::json_u64_at;
use crate::deps::json::json_valid;
use crate::net_text::ipv4_of;
use crate::tables::named;
use crate::text::chars_of;
use crate::text::decimal;
use crate::text::push_decimal;
use crate::text::string_of;

verus! {

// ---- Queries ----
/// What a query asks for.
#[derive(Debug)]
pub struct DnsQueryInfo {
    pub domain: String,
    pub query_type: u16,
    pub dns_id: u16,
}

#[verifier::ext_equal]
pub struct DnsQueryInfoView {
    pub domain: Seq<char>,
    pub query_type: u16,
    pub dns_id: u16,
}

impl View for DnsQueryInfo {
    type V = DnsQueryInfoView;

    open spec fn view(&self) -> DnsQueryInfoView {
        DnsQueryInfoView {
            domain: self.domain@,
            query_type: self.query_type,
            dns_id: self.dns_id,
        }
    }
}

/// What a query message asks for first.
pub open spec fn first_query(m: Option<QueryMessageView>) -> Option<DnsQueryInfoView> {
    match m {
        Some(m) if m.queries.len() > 0 => Some(
            DnsQueryInfoView {
                domain: m.queries[0].0,
                query_type: m.queries[0].1,
                dns_id: m.id,
            },
        ),
        _ => None,
    }
}

pub open spec fn info_view(r: Option<DnsQueryInfo>) -> Option<DnsQueryInfoView> {
    match r {
        Some(i) => Some(i@),
        None => None,
    }
}

/// What a query message asks for first.
pub fn query_info(m: &QueryMessage) -> (r: Option<DnsQueryInfo>)
    ensures
        info_view(r) == first_query(Some(m@)),
{
    if m.queries.len() == 0 {
        return None;
    }
    assert(m@.queries[0] == (m.queries@[0].0@, m.queries@[0].1));
    Some(
        DnsQueryInfo {
            domain: m.queries[0].0.clone(),
            query_type: m.queries[0].1,
            dns_id: m.id,
        },
    )
}

/// What a query asks for, if it is one.
pub fn parse_dns_query(buf: &[u8]) -> (r: Option<DnsQueryInfo>)
    ensures
        info_view(r) == first_query(query_message(buf@)),
{
    match decode_query(buf) {
        Some(m) => query_info(&m),
        None => None,
    }
}

/// The name of a record type, for those that have one here.
pub open spec fn record_type_name(query_type: u16) -> Seq<char> {
    match query_type {
        1 => "A"@,
        2 => "NS"@,
        5 => "CNAME"@,
        6 => "SOA"@,
        12 => "PTR"@,
        15 => "MX"@,
        16 => "TXT"@,
        28 => "AAAA"@,
        _ => "OTHER"@,
    }
}

/// The name of a record type, for those that have one here.
pub fn get_record_type_name(query_type: u16) -> (r: &'static str)
    ensures
        r@ == record_type_name(query_type),
{
    match query_type {
        1 => "A",
        2 => "NS",
        5 => "CNAME",
        6 => "SOA",
        12 => "PTR",
        15 => "MX",
        16 => "TXT",
        28 => "AAAA",
        _ => "OTHER",
    }
}

/// The parameters of a request to the JSON interface.
pub fn dns_query_to_doh_params(query_info: &DnsQueryInfo) -> (r: String)
    ensures
        r@ == "name="@ + query_info.domain@ + "&type="@ + record_type_name(query_info.query_type),
{
    let mut r = "name=".to_string();
    r.append(query_info.domain.as_str());
    r.append("&type=");
    r.append(get_record_type_name(query_info.query_type));
    r
}

// ---- Responses ----
/// The response code for a status of the JSON interface.
pub open spec fn response_code_spec(status: u64) -> u16 {
    if status <= 5 {
        status as u16
    } else {
        2
    }
}

/// The response code for a status of the JSON interface: that status, or "server failure".
pub fn response_code_of(status: u64) -> (r: u16)
    ensures
        r == response_code_spec(status),
{
    match status {
        0 => 0,
        1 => 1,
        2 => 2,
        3 => 3,
        4 => 4,
        5 => 5,
        _ => 2,
    }
}

/// The record type of the question that is repeated.
pub open spec fn question_type_spec(qtype: u64) -> u16 {
    if qtype == 28 || qtype == 5 {
        qtype as u16
    } else {
        1
    }
}

/// The record type of the question that is repeated: of the types 1, 28 and 5 that type, else 1.
pub fn question_type_of(qtype: u64) -> (r: u16)
    ensures
        r == question_type_spec(qtype),
{
    match qtype {
        28 => 28,
        5 => 5,
        _ => 1,
    }
}

/// What the data of an answer says, by its type. `a`, `aaaa` and `cname` are the data read as an
/// IPv4 address, an IPv6 address and a name.
pub open spec fn answer_data_spec(rtype: u64, a: Option<u32>, aaaa: Option<u128>, cname: Option<Seq<char>>) -> Option<AnswerDataView> {
    match rtype {
        1 => match a {
            Some(ip) => Some(AnswerDataView::A(ip)),
            None => None,
        },
        28 => match aaaa {
            Some(ip) => Some(AnswerDataView::Aaaa(ip)),
            None => None,
        },
        5 => match cname {
            Some(name) => Some(AnswerDataView::Cname(name)),
            None => None,
        },
        _ => None,
    }
}

pub open spec fn opt_text(s: Option<String>) -> Option<Seq<char>> {
    match s {
        Some(t) => Some(t@),
        None => None,
    }
}

/// What the data of an answer says, by its type.
pub fn answer_data(rtype: u64, a: Option<u32>, aaaa: Option<u128>, cname: Option<String>) -> (r:
    Option<AnswerData>)
    ensures
        match r {
            Some(d) => answer_data_spec(rtype, a, aaaa, opt_text(cname)) == Some(d@),
            None => answer_data_spec(rtype, a, aaaa, opt_text(cname)) is None,
        },
{
    match rtype {
        1 => match a {
            Some(ip) => Some(AnswerData::A(ip)),
            None => None,
        },
        28 => match aaaa {
            Some(ip) => Some(AnswerData::Aaaa(ip)),
            None => None,
        },
        5 => match cname {
            Some(name) => Some(AnswerData::Cname(name)),
            None => None,
        },
        _ => None,
    }
}

pub open spec fn str_or(s: Option<Seq<char>>, default: Seq<char>) -> Seq<char> {
    match s {
        Some(t) => t,
        None => default,
    }
}

pub open spec fn num_or(n: Option<u64>, default: u64) -> u64 {
    match n {
        Some(v) => v,
        None => default,
    }
}

/// The place of a field of the `i`-th answer of a document.
pub open spec fn answer_field(i: nat, field: Seq<char>) -> Seq<char> {
    "/Answer/"@ + decimal(i) + field
}

/// The `i`-th answer of a document. Its name defaults to the root, its type to 1, its time to live
/// to 300, its data to nothing. There is none where the name or the data cannot be read.
pub open spec fn answer_at(text: Seq<char>, i: nat) -> Option<AnswerView> {
    let name = str_or(json_str(text, answer_field(i, "/name"@)), "."@);
    let rtype = num_or(json_u64(text, answer_field(i, "/type"@)), 1);
    let ttl = (num_or(json_u64(text, answer_field(i, "/TTL"@)), 300) % 0x1_0000_0000) as u32;
    let data = str_or(json_str(text, answer_field(i, "/data"@)), ""@);
    let cname = if is_dns_name(data) {
        Some(data)
    } else {
        None
    };
    if !is_dns_name(name) {
        None
    } else {
        match answer_data_spec(rtype, ipv4_of(data), aaaa_record_data(data), cname) {
            Some(d) => Some(AnswerView { name, ttl, data: d }),
            None => None,
        }
    }
}

/// The answers of a document among the first `n`.
pub open spec fn answers_upto(text: Seq<char>, n: nat) -> Seq<AnswerView>
    decreases n,
{
    if n == 0 {
        Seq::empty()
    } else {
        let before = answers_upto(text, (n - 1) as nat);
        match answer_at(text, (n - 1) as nat) {
            Some(a) => before.push(a),
            None => before,
        }
    }
}

/// The question of a document, if it has one with a name that can be read.
pub open spec fn question_of(text: Seq<char>) -> Seq<(Seq<char>, u16)> {
    let name = str_or(json_str(text, "/Question/0/name"@), "."@);
    if num_of(json_array_len(text, "/Question"@)) > 0 && is_dns_name(name) {
        seq![
            (name, question_type_spec(num_or(json_u64(text, "/Question/0/type"@), 1))),
        ]
    } else {
        Seq::empty()
    }
}

pub open spec fn num_of(n: Option<usize>) -> nat {
    match n {
        Some(v) => v as nat,
        None => 0,
    }
}

/// The response that a document spells.
pub open spec fn json_response(text: Seq<char>, query_id: u16) -> ResponseView {
    ResponseView {
        id: query_id,
        response_code: response_code_spec(num_or(json_u64(text, "/Status"@), 0)),
        authoritative: false,
        recursion_desired: true,
        recursion_available: true,
        questions: question_of(text),
        answers: answers_upto(text, num_of(json_array_len(text, "/Answer"@))),
    }
}

fn str_at(text: &str, pointer: &str, default: &str) -> (r: String)
    ensures
        r@ == str_or(json_str(text@, pointer@), default@),
{
    match json_str_at(text, pointer) {
        Some(s) => s,
        None => default.to_owned(),
    }
}

fn num_at(text: &str, pointer: &str, default: u64) -> (r: u64)
    ensures
        r == num_or(json_u64(text@, pointer@), default),
{
    match json_u64_at(text, pointer) {
        Some(n) => n,
        None => default,
    }
}

fn field_of(i: usize, field: &str) -> (r: String)
    ensures
        r@ == answer_field(i as nat, field@),
{
    let mut t: Vec<char> = chars_of("/Answer/");
    push_decimal(&mut t, i as u64);
    let mut r = string_of(t.as_slice());
    r.append(field);
    r
}

fn read_answer(text: &str, i: usize) -> (r: Option<Answer>)
    ensures
        match r {
            Some(a) => answer_at(text@, i as nat) == Some(a@),
            None => answer_at(text@, i as nat) is None,
        },
{
    let name = str_at(text, field_of(i, "/name").as_str(), ".");
    let rtype: u64 = num_at(text, field_of(i, "/type").as_str(), 1);
    let ttl: u32 = (num_at(text, field_of(i, "/TTL").as_str(), 300) % 0x1_0000_0000) as u32;
    let data = str_at(text, field_of(i, "/data").as_str(), "");
    if !dns_name_ok(name.as_str()) {
        return None;
    }
    let a = parse_a_data(data.as_str());
    let aaaa = parse_aaaa_data(data.as_str());
    let cname = if dns_name_ok(data.as_str()) {
        Some(data)
    } else {
        None
    };
    match answer_data(rtype, a, aaaa, cname) {
        Some(data) => Some(Answer { name, ttl, data }),
        None => None,
    }
}

fn read_question(text: &str) -> (r: Vec<(String, u16)>)
    ensures
        named(r@) == question_of(text@),
{
    let mut r: Vec<(String, u16)> = Vec::new();
    let n: usize = match json_array_len_at(text, "/Question") {
        Some(n) => n,
        None => 0,
    };
    if n > 0 {
        let name = str_at(text, "/Question/0/name", ".");
        let qtype: u16 = question_type_of(num_at(text, "/Question/0/type", 1));
        if dns_name_ok(name.as_str()) {
            r.push((name, qtype));
        }
    }
    assert(named(r@) =~= question_of(text@));
    r
}

/// Reads the response that a document spells.
fn read_response(text: &str, query_id: u16) -> (r: Response)
    ensures
        r@ == json_response(text@, query_id),
{
    let n: usize = match json_array_len_at(text, "/Answer") {
        Some(n) => n,
        None => 0,
    };
    let mut answers: Vec<Answer> = Vec::new();
    let mut i: usize = 0;
    let ghost views = |a: Answer| a@;
    assert(answers@.map_values(views) =~= answers_upto(text@, 0));
    while i < n
        invariant
            i <= n,
            views == (|a: Answer| a@),
            answers@.map_values(views) == answers_upto(text@, i as nat),
        decreases n - i,
    {
        let ghost before = answers@;
        match read_answer(text, i) {
            Some(a) => {
                answers.push(a);
                assert(answers@.map_values(views) =~= before.map_values(views).push(a@));
            },
            None => {},
        }
        i += 1;
    }
    Response {
        id: query_id,
        response_code: response_code_of(num_at(text, "/Status", 0)),
        authoritative: false,
        recursion_desired: true,
        recursion_available: true,
        questions: read_question(text),
        answers,
    }
}

/// The header of a response, without its identifier and counts.
pub open spec fn header_of(r: ResponseView) -> Seq<u8> {
    seq![
        0,
        0,
        (0x80 + (if r.authoritative {
            4int
        } else {
            0
        }) + (if r.recursion_desired {
            1int
        } else {
            0
        })) as u8,
        ((if r.recursion_available {
            0x80int
        } else {
            0
        }) + r.response_code % 16) as u8,
        0,
        0,
        0,
        0,
        0,
        0,
        0,
        0,
    ]
}

/// The bytes of a response.
pub open spec fn response_bytes(r: ResponseView) -> Option<Seq<u8>> {
    match response_message(header_of(r), r.questions, r.answers) {
        Some(rest) => Some(be_bytes(r.id as nat, 2) + rest),
        None => None,
    }
}

/// Writes the header of a response, without its identifier and counts.
pub fn response_header(r: &Response) -> (h: Vec<u8>)
    ensures
        h@ == header_of(r@),
{
    let aa: u8 = if r.authoritative {
        4
    } else {
        0
    };
    let rd: u8 = if r.recursion_desired {
        1
    } else {
        0
    };
    let ra: u8 = if r.recursion_available {
        0x80
    } else {
        0
    };
    let code: u8 = (r.response_code % 16) as u8;
    let h: Vec<u8> = vec![
        0,
        0,
        0x80 + aa + rd,
        ra + code,
        0,
        0,
        0,
        0,
        0,
        0,
        0,
        0,
    ];
    assert(h@ =~= header_of(r@));
    h
}

/// The response code of the message that is made of a document.
pub open spec fn code_of(text: Seq<char>) -> u16 {
    response_code_spec(num_or(json_u64(text, "/Status"@), 0))
}

/// Whether a message has room for the question and all answers of a document, with no name shortened.
pub open spec fn fits(text: Seq<char>) -> bool {
    all_fit(question_of(text), answers_upto(text, num_of(json_array_len(text, "/Answer"@))))
}

/// The DNS message that says what a response of the JSON interface says. It bears the identifier
/// `query_id`, is marked as a response to a recursive query, and has the response code that the
/// document gives. It is marked as cut off only where it may be too long.
pub fn json_to_dns_message(json_str: &str, query_id: u16) -> (r: Option<Vec<u8>>)
    ensures
        match r {
            Some(b) => is_json(json_str@) && response_bytes(json_response(json_str@, query_id))
                == Some(b@),
            None => !is_json(json_str@) || response_bytes(json_response(json_str@, query_id)) is None,
        },
        r matches Some(b) ==> b@.len() >= 12 && b@.subrange(0, 2) == be_bytes(query_id as nat, 2)
            && (b@[2] == 0x81 || (b@[2] == 0x83 && !fits(json_str@))) && b@[3] == 0x80 + code_of(
            json_str@,
        ),
{
    if !json_valid(json_str) {
        return None;
    }
    let response = read_response(json_str, query_id);
    let header = response_header(&response);
    let r = encode_response(
        query_id,
        header.as_slice(),
        response.questions.as_slice(),
        response.answers.as_slice(),
    );
    proof {
        if let Some(ref b) = r {
            crate::be::lemma_be_bytes_len(query_id as nat, 2);
            assert(b@.subrange(0, 2) =~= be_bytes(query_id as nat, 2));
        }
    }
    r
}

/// The messages that are made of one document for two queries differ in their identifiers only.
pub proof fn only_the_id_differs(text: Seq<char>, a: u16, b: u16)
    ensures
        match (response_bytes(json_response(text, a)), response_bytes(json_response(text, b))) {
            (Some(x), Some(y)) => x.len() == y.len() && x.subrange(0, 2) == be_bytes(a as nat, 2)
                && y.subrange(0, 2) == be_bytes(b as nat, 2) && x.subrange(2, x.len() as int)
                == y.subrange(2, y.len() as int),
            (None, None) => true,
            _ => false,
        },
{
    let ra = json_response(text, a);
    let rb = json_response(text, b);
    assert(header_of(ra) == header_of(rb));
    crate::be::lemma_be_bytes_len(a as nat, 2);
    crate::be::lemma_be_bytes_len(b as nat, 2);
    if let Some(rest) = response_message(header_of(ra), ra.questions, ra.answers) {
        let x = be_bytes(a as nat, 2) + rest;
        let y = be_bytes(b as nat, 2) + rest;
        assert(x.subrange(0, 2) =~= be_bytes(a as nat, 2));
        assert(y.subrange(0, 2) =~= be_bytes(b as nat, 2));
        assert(x.subrange(2, x.len() as int) =~= rest);
        assert(y.subrange(2, y.len() as int) =~= rest);
    }
}

// ---- Laws: from a document to a message ----
/// Whether the field of a document says `value`, or is not there and `value` is what is then meant.
pub open spec fn text_says(found: Option<Seq<char>>, value: Seq<char>, otherwise: Seq<char>) -> bool {
    found == Some(value) || found is None && value == otherwise
}

/// The same of a number.
pub open spec fn number_says(found: Option<u64>, value: u64, otherwise: u64) -> bool {
    found == Some(value) || found is None && value == otherwise
}

/// Whether the `i`-th answer of a document says `record`: with its name, which can be read, its time to
/// live, and its data, by its type: 1 for the IPv4 address that the data spells, 28 for the IPv6
/// address that the data spells, 5 for the name that the data is. A name that is not there is the
/// root, a type 1, and a time to live 300.
pub open spec fn answer_says(text: Seq<char>, i: nat, record: AnswerView) -> bool {
    let at = "/Answer/"@ + decimal(i);
    let rtype = json_u64(text, at + "/type"@);
    let found = json_str(text, at + "/data"@);
    &&& text_says(json_str(text, at + "/name"@), record.name, "."@)
    &&& is_dns_name(record.name)
    &&& match json_u64(text, at + "/TTL"@) {
        Some(ttl) => record.ttl == ttl as nat % 0x1_0000_0000,
        None => record.ttl == 300,
    }
    &&& match record.data {
        AnswerDataView::A(ip) => number_says(rtype, 1, 1) && exists|data: Seq<char>|
            text_says(found, data, ""@) && #[trigger] ipv4_of(data) == Some(ip),
        AnswerDataView::Aaaa(ip) => rtype == Some(28u64) && exists|data: Seq<char>|
            text_says(found, data, ""@) && #[trigger] aaaa_record_data(data) == Some(ip),
        AnswerDataView::Cname(name) => rtype == Some(5u64) && text_says(found, name, ""@)
            && is_dns_name(name),
    }
}

/// How many answers a document lists.
pub open spec fn answers_listed(text: Seq<char>) -> nat {
    match json_array_len(text, "/Answer"@) {
        Some(n) => n as nat,
        None => 0,
    }
}

/// An answer of a document is read as what it says, and one that says nothing is not read.
pub proof fn answers_are_read(text: Seq<char>, i: nat, record: AnswerView)
    ensures
        answer_at(text, i) == Some(record) <==> answer_says(text, i, record),
{
    let at = "/Answer/"@ + decimal(i);
    let found = json_str(text, at + "/data"@);
    let data = str_or(found, ""@);
    assert(text_says(found, data, ""@));
    assert(answer_field(i, "/name"@) == at + "/name"@);
    assert(answer_field(i, "/type"@) == at + "/type"@);
    assert(answer_field(i, "/TTL"@) == at + "/TTL"@);
    assert(answer_field(i, "/data"@) == at + "/data"@);
    match record.data {
        AnswerDataView::A(ip) => {
            if answer_says(text, i, record) {
                assert(ipv4_of(data) == Some(ip));
            }
        },
        AnswerDataView::Aaaa(ip) => {
            if answer_says(text, i, record) {
                assert(aaaa_record_data(data) == Some(ip));
            }
        },
        AnswerDataView::Cname(name) => {},
    }
}

proof fn lemma_answer_kept(text: Seq<char>, i: nat, n: nat)
    requires
        i < n,
        answer_at(text, i) is Some,
    ensures
        answers_upto(text, i).len() < answers_upto(text, n).len(),
        answers_upto(text, n)[answers_upto(text, i).len() as int] == answer_at(text, i)->0,
        answers_upto(text, i).is_prefix_of(answers_upto(text, n)),
    decreases n,
{
    if i + 1 < n {
        lemma_answer_kept(text, i, (n - 1) as nat);
        assert(answers_upto(text, i).is_prefix_of(answers_upto(text, (n - 1) as nat)));
        assert(answers_upto(text, (n - 1) as nat).is_prefix_of(answers_upto(text, n)));
    }
}

/// Whatever a document lists as an answer is in the response, in the order of the document.
pub proof fn listed_answers_are_given(
    text: Seq<char>,
    query_id: u16,
    i: nat,
    record: AnswerView,
    j: nat,
    later: AnswerView,
)
    requires
        i < answers_listed(text),
        answer_says(text, i, record),
    ensures
        json_response(text, query_id).answers.contains(record),
        i < j < answers_listed(text) && answer_says(text, j, later) ==> exists|a: int, b: int|
            0 <= a < b < json_response(text, query_id).answers.len()
                && #[trigger] json_response(text, query_id).answers[a] == record
                && #[trigger] json_response(text, query_id).answers[b] == later,
{
    let n = answers_listed(text);
    let all = json_response(text, query_id).answers;
    answers_are_read(text, i, record);
    lemma_answer_kept(text, i, n);
    let a = answers_upto(text, i).len() as int;
    assert(all[a] == record);
    if i < j < n && answer_says(text, j, later) {
        answers_are_read(text, j, later);
        lemma_answer_kept(text, j, n);
        lemma_answer_kept(text, i, j);
        let b = answers_upto(text, j).len() as int;
        assert(all[b] == later);
        assert(0 <= a < b < all.len());
    }
}

proof fn lemma_answer_listed(text: Seq<char>, n: nat, k: int)
    requires
        0 <= k < answers_upto(text, n).len(),
    ensures
        exists|i: nat| i < n && #[trigger] answer_at(text, i) == Some(answers_upto(text, n)[k]),
    decreases n,
{
    let m = (n - 1) as nat;
    if k < answers_upto(text, m).len() {
        lemma_answer_listed(text, m, k);
        let i = choose|i: nat|
            i < m && #[trigger] answer_at(text, i) == Some(answers_upto(text, m)[k]);
        assert(answers_upto(text, n)[k] == answers_upto(text, m)[k]);
        assert(answer_at(text, i) == Some(answers_upto(text, n)[k]));
    } else {
        assert(answer_at(text, m) == Some(answers_upto(text, n)[k]));
    }
}

/// No answer is in a response that the document does not list.
pub proof fn no_answer_is_made_up(text: Seq<char>, query_id: u16, k: int)
    requires
        0 <= k < json_response(text, query_id).answers.len(),
    ensures
        exists|i: nat|
            i < answers_listed(text) && #[trigger] answer_says(
                text,
                i,
                json_response(text, query_id).answers[k],
            ),
{
    let n = answers_listed(text);
    let record = json_response(text, query_id).answers[k];
    lemma_answer_listed(text, n, k);
    let i = choose|i: nat| i < n && #[trigger] answer_at(text, i) == Some(record);
    answers_are_read(text, i, record);
    assert(answer_says(text, i, record));
}

proof fn lemma_all_answers(text: Seq<char>, answers: Seq<AnswerView>, n: nat)
    requires
        n <= answers.len(),
        forall|i: int|
            0 <= i < answers.len() ==> answer_says(text, i as nat, #[trigger] answers[i]),
    ensures
        answers_upto(text, n) == answers.take(n as int),
    decreases n,
{
    if n > 0 {
        let m = (n - 1) as nat;
        lemma_all_answers(text, answers, m);
        assert(answer_says(text, m, answers[m as int]));
        answers_are_read(text, m, answers[m as int]);
    }
    assert(answers_upto(text, n) =~= answers.take(n as int));
}

/// Whether a document asks `question`: with the name of its first question, which can be read, and its
/// type where that is 1, 5 or 28; another type counts as 1.
pub open spec fn question_says(text: Seq<char>, question: Option<(Seq<char>, u16)>) -> bool {
    let listed = match json_array_len(text, "/Question"@) {
        Some(n) => n > 0,
        None => false,
    };
    let found = json_str(text, "/Question/0/name"@);
    match question {
        Some((name, qtype)) => {
            &&& listed
            &&& text_says(found, name, "."@)
            &&& is_dns_name(name)
            &&& match json_u64(text, "/Question/0/type"@) {
                Some(28) => qtype == 28,
                Some(5) => qtype == 5,
                _ => qtype == 1,
            }
        },
        None => !listed || exists|name: Seq<char>|
            text_says(found, name, "."@) && !(#[trigger] is_dns_name(name)),
    }
}

/// Whether `code` is the response code for the status of a document: the status where it is at most
/// 5, "server failure" where it is more, and "no error" where there is none.
pub open spec fn status_says(text: Seq<char>, code: u16) -> bool {
    match json_u64(text, "/Status"@) {
        Some(status) => code as u64 == status && status <= 5 || status > 5 && code == 2,
        None => code == 0,
    }
}

/// A document becomes the message that says what the document says: a response to a recursive query,
/// with the identifier of the query, the response code, the question, and all answers in their order.
pub proof fn documents_become_messages(
    text: Seq<char>,
    query_id: u16,
    code: u16,
    question: Option<(Seq<char>, u16)>,
    answers: Seq<AnswerView>,
)
    requires
        status_says(text, code),
        question_says(text, question),
        answers.len() == answers_listed(text),
        forall|i: int|
            0 <= i < answers.len() ==> answer_says(text, i as nat, #[trigger] answers[i]),
    ensures
        response_bytes(json_response(text, query_id)) == (match response_message(
            seq![0u8, 0, 0x81, (0x80 + code) as u8, 0, 0, 0, 0, 0, 0, 0, 0],
            match question {
                Some(q) => seq![q],
                None => Seq::empty(),
            },
            answers,
        ) {
            Some(rest) => Some(be_bytes(query_id as nat, 2) + rest),
            None => None,
        }),
{
    let r = json_response(text, query_id);
    lemma_all_answers(text, answers, answers.len());
    assert(answers.take(answers.len() as int) =~= answers);
    assert(r.answers == answers);
    assert(r.response_code == code);
    assert(header_of(r) =~= seq![0u8, 0, 0x81, (0x80 + code) as u8, 0, 0, 0, 0, 0, 0, 0, 0]);
    let found = json_str(text, "/Question/0/name"@);
    let name = str_or(found, "."@);
    assert(text_says(found, name, "."@));
    match question {
        Some(q) => {
            assert(r.questions =~= seq![q]);
        },
        None => {
            assert(is_dns_name(name) ==> !(num_of(json_array_len(text, "/Question"@)) > 0));
            assert(r.questions =~= Seq::<(Seq<char>, u16)>::empty());
        },
    }
}

/// The code and the question that a document says are what it says; there is always one of each.
pub proof fn documents_say_something(text: Seq<char>)
    ensures
        exists|code: u16| status_says(text, code),
        exists|question: Option<(Seq<char>, u16)>| question_says(text, question),
{
    let code: u16 = match json_u64(text, "/Status"@) {
        Some(status) => if status <= 5 {
            status as u16
        } else {
            2
        },
        None => 0,
    };
    assert(status_says(text, code));
    let name = match json_str(text, "/Question/0/name"@) {
        Some(name) => name,
        None => "."@,
    };
    assert(text_says(json_str(text, "/Question/0/name"@), name, "."@));
    let qtype: u16 = match json_u64(text, "/Question/0/type"@) {
        Some(28) => 28,
        Some(5) => 5,
        _ => 1,
    };
    if is_dns_name(name) && (json_array_len(text, "/Question"@) matches Some(n) && n > 0) {
        assert(question_says(text, Some((name, qtype))));
    } else {
        assert(question_says(text, None));
    }
}

/// The flags of a response are written where a reader of DNS messages looks for them: the third byte
/// says that it is a response, whether it is authoritative and whether recursion was desired, the
/// fourth whether recursion is available, and the response code.
pub proof fn flags_stand_in_their_places(r: ResponseView)
    requires
        r.response_code < 16,
    ensures
        ({
            let h = header_of(r);
            &&& h.len() == 12
            &&& h[2] & 0x80 == 0x80
            &&& (h[2] & 0x04 == 0x04) == r.authoritative
            &&& (h[2] & 0x01 == 0x01) == r.recursion_desired
            &&& (h[3] & 0x80 == 0x80) == r.recursion_available
            &&& h[3] & 0x0f == r.response_code
        }),
{
    let h = header_of(r);
    let (a, b) = (h[2], h[3]);
    let code = r.response_code as u8;
    assert(code < 16);
    assert(a == 0x80 || a == 0x81 || a == 0x84 || a == 0x85);
    assert((a & 0x80 == 0x80) && ((a & 0x04 == 0x04) == (a == 0x84 || a == 0x85)) && ((a & 0x01
        == 0x01) == (a == 0x81 || a == 0x85))) by (bit_vector)
        requires
            a == 0x80 || a == 0x81 || a == 0x84 || a == 0x85,
    ;
    assert(b == code || b == 0x80 + code);
    assert((b & 0x0f == code) && ((b & 0x80 == 0x80) == (b == 0x80 + code))) by (bit_vector)
        requires
            code < 16,
            b == code || b == 0x80 + code,
    ;
}

/// What a query asks for is its first question, under the identifier of the message.
pub proof fn queries_ask_for_their_first_question(
    buf: &[u8],
    r: Option<DnsQueryInfo>,
    m: QueryMessageView,
    params: String,
    q: &DnsQueryInfo,
)
    requires
        call_ensures(parse_dns_query, (buf,), r),
        call_ensures(dns_query_to_doh_params, (q,), params),
    ensures
        query_message(buf@) is None ==> r is None,
        query_message(buf@) == Some(m) && m.queries.len() == 0 ==> r is None,
        query_message(buf@) == Some(m) && m.queries.len() > 0 ==> (r matches Some(i) && i.domain@
            == m.queries[0].0 && i.query_type == m.queries[0].1 && i.dns_id == m.id),
        params@ == "name="@ + q.domain@ + "&type="@ + record_type_name(q.query_type),
{
}

/// Record types that have a name have each its own, and all others have the same.
pub proof fn record_types_have_their_own_names(a: u16, b: u16)
    ensures
        record_type_name(1) == "A"@,
        record_type_name(28) == "AAAA"@,
        record_type_name(5) == "CNAME"@,
        record_type_name(2) == "NS"@,
        record_type_name(6) == "SOA"@,
        record_type_name(12) == "PTR"@,
        record_type_name(15) == "MX"@,
        record_type_name(16) == "TXT"@,
        record_type_name(a) == record_type_name(b) ==> a == b || record_type_name(a) == "OTHER"@,
{
    reveal_strlit("A");
    reveal_strlit("NS");
    reveal_strlit("CNAME");
    reveal_strlit("SOA");
    reveal_strlit("PTR");
    reveal_strlit("MX");
    reveal_strlit("TXT");
    reveal_strlit("AAAA");
    reveal_strlit("OTHER");
    assert("A"@.len() == 1 && "NS"@.len() == 2 && "CNAME"@.len() == 5 && "SOA"@.len() == 3);
    assert("PTR"@.len() == 3 && "MX"@.len() == 2 && "TXT"@.len() == 3 && "AAAA"@.len() == 4);
    assert("OTHER"@.len() == 5);
    assert("NS"@[0] == 'N' && "MX"@[0] == 'M');
    assert("SOA"@[0] == 'S' && "PTR"@[0] == 'P' && "TXT"@[0] == 'T');
    assert("CNAME"@[0] == 'C' && "OTHER"@[0] == 'O');
}

/// The status of a document is the response code as far as there is one with that number.
pub proof fn statuses_are_response_codes(status: u64, r: u16, qtype: u64, q: u16)
    requires
        call_ensures(response_code_of, (status,), r),
        call_ensures(question_type_of, (qtype,), q),
    ensures
        status <= 5 ==> r == status,
        status > 5 ==> r == 2,
        qtype == 1 || qtype == 5 || qtype == 28 ==> q == qtype,
        qtype != 5 && qtype != 28 ==> q == 1,
{
}

} // verus!
