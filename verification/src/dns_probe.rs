//! Reading the answer of a DNS server byte by byte, for a probe that shows everything in it.
use vstd::prelude::*;
use vstd::slice::slice_subrange;
use vstd::slice::slice_to_vec;
use vstd::utf8::decode_utf8;
use vstd::utf8::valid_utf8;

use crate::text::chars_of;
use crate::text::str_from_utf8;
use crate::text::string_of;

verus! {

/// How many pointers are followed within one name. There are no more places that a pointer can
/// point to.
pub const MAX_POINTERS: u16 = 0x4000;

/// The place that two bytes point to.
pub open spec fn pointer_at(buf: Seq<u8>, offset: int) -> int {
    (buf[offset] - 0xc0) * 256 + buf[offset + 1]
}

/// The text of a label. One that is no UTF-8 reads `?`.
pub open spec fn label_text(label: Seq<u8>) -> Seq<char> {
    if valid_utf8(label) {
        decode_utf8(label)
    } else {
        seq!['?']
    }
}

/// The name that stands at `offset`, with its labels joined by dots, and the place behind it; at
/// most `pointers` pointers are followed. Nothing where the bytes end too early. Behind a pointer
/// one byte is skipped.
pub open spec fn name_at(buf: Seq<u8>, offset: int, pointers: nat) -> Option<(Seq<char>, int)>
    decreases pointers, buf.len() - offset,
{
    if offset < 0 || offset >= buf.len() {
        None
    } else if buf[offset] == 0 {
        Some((Seq::empty(), offset + 1))
    } else if buf[offset] >= 0xc0 {
        if offset + 1 >= buf.len() || pointers == 0 {
            None
        } else {
            match name_at(buf, pointer_at(buf, offset), (pointers - 1) as nat) {
                Some((name, _)) => Some((name, offset + 3)),
                None => None,
            }
        }
    } else {
        let next = offset + 1 + buf[offset];
        if next >= buf.len() {
            None
        } else {
            match name_at(buf, next, pointers) {
                Some((rest, end)) => Some(
                    (
                        label_text(buf.subrange(offset + 1, next)) + (if buf[next] > 0 {
                            seq!['.']
                        } else {
                            Seq::empty()
                        }) + rest,
                        end,
                    ),
                ),
                None => None,
            }
        }
    }
}

/// A name with text in front of it, and with its end replaced.
pub open spec fn behind(
    front: Seq<char>,
    end: Option<int>,
    name: Option<(Seq<char>, int)>,
) -> Option<(Seq<char>, int)> {
    match name {
        Some((n, e)) => Some(
            (
                front + n,
                match end {
                    Some(x) => x,
                    None => e,
                },
            ),
        ),
        None => None,
    }
}

pub open spec fn as_place(end: Option<usize>) -> Option<int> {
    match end {
        Some(e) => Some(e as int),
        None => None,
    }
}

/// Reads the name that stands at `offset`.
pub fn parse_domain_name(buf: &[u8], offset: usize) -> (r: Option<(String, usize)>)
    requires
        buf@.len() <= usize::MAX - 2,
    ensures
        match r {
            Some((name, end)) => name_at(buf@, offset as int, MAX_POINTERS as nat) == Some(
                (name@, end as int),
            ),
            None => name_at(buf@, offset as int, MAX_POINTERS as nat) is None,
        },
{
    let len: usize = buf.len();
    let mut name: Vec<char> = Vec::new();
    let mut at: usize = offset;
    let mut left: u16 = MAX_POINTERS;
    let mut end: Option<usize> = None;
    let ghost whole = name_at(buf@, offset as int, MAX_POINTERS as nat);
    proof {
        if let Some((n, e)) = whole {
            assert(Seq::<char>::empty() + n =~= n);
        }
    }
    loop
        invariant
            len == buf@.len(),
            len <= usize::MAX - 2,
            whole == name_at(buf@, offset as int, MAX_POINTERS as nat),
            whole == behind(name@, as_place(end), name_at(buf@, at as int, left as nat)),
        decreases left, len - at,
    {
        if at >= len {
            return None;
        }
        let b: u8 = buf[at];
        if b == 0 {
            proof {
                assert(name@ + Seq::<char>::empty() =~= name@);
            }
            let stop: usize = match end {
                Some(e) => e,
                None => at + 1,
            };
            return Some((string_of(name.as_slice()), stop));
        }
        if b >= 0xc0 {
            if at + 1 >= len || left == 0 {
                return None;
            }
            if end.is_none() {
                end = Some(at + 3);
            }
            let to: usize = (b - 0xc0) as usize * 256 + buf[at + 1] as usize;
            assert(to == pointer_at(buf@, at as int));
            at = to;
            left -= 1;
        } else {
            if b as usize >= len - at - 1 {
                return None;
            }
            let next: usize = at + 1 + b as usize;
            let ghost front = name@;
            let label = slice_subrange(buf, at + 1, next);
            let mut text: Vec<char> = match str_from_utf8(label) {
                Some(t) => chars_of(t),
                None => vec!['?'],
            };
            assert(text@ =~= label_text(label@));
            name.append(&mut text);
            if buf[next] > 0 {
                name.push('.');
            }
            proof {
                let dot = if buf@[next as int] > 0 {
                    seq!['.']
                } else {
                    Seq::<char>::empty()
                };
                assert(name@ =~= front + label_text(label@) + dot);
                if let Some((rest, e)) = name_at(buf@, next as int, left as nat) {
                    assert(name@ + rest =~= front + (label_text(label@) + dot + rest));
                }
            }
            at = next;
        }
    }
}

/// A name that is read with some number of pointers is read the same with more.
pub proof fn more_pointers_same_name(buf: Seq<u8>, offset: int, pointers: nat, more: nat)
    requires
        name_at(buf, offset, pointers) is Some,
        pointers <= more,
    ensures
        name_at(buf, offset, more) == name_at(buf, offset, pointers),
    decreases pointers, buf.len() - offset,
{
    if buf[offset] >= 0xc0 {
        more_pointers_same_name(
            buf,
            pointer_at(buf, offset),
            (pointers - 1) as nat,
            (more - 1) as nat,
        );
    } else if buf[offset] > 0 {
        more_pointers_same_name(buf, offset + 1 + buf[offset], pointers, more);
    }
}

/// The places that the pointers of a name lead to, in order.
pub open spec fn trail(buf: Seq<u8>, offset: int, pointers: nat) -> Seq<int>
    decreases pointers, buf.len() - offset,
{
    if offset < 0 || offset >= buf.len() || buf[offset] == 0 {
        Seq::empty()
    } else if buf[offset] >= 0xc0 {
        if offset + 1 >= buf.len() || pointers == 0 {
            Seq::empty()
        } else {
            let to = pointer_at(buf, offset);
            seq![to] + trail(buf, to, (pointers - 1) as nat)
        }
    } else if offset + 1 + buf[offset] >= buf.len() {
        Seq::empty()
    } else {
        trail(buf, offset + 1 + buf[offset], pointers)
    }
}

proof fn lemma_trail_more(buf: Seq<u8>, offset: int, pointers: nat, more: nat)
    requires
        name_at(buf, offset, pointers) is Some,
        pointers <= more,
    ensures
        trail(buf, offset, more) == trail(buf, offset, pointers),
    decreases pointers, buf.len() - offset,
{
    if buf[offset] >= 0xc0 {
        lemma_trail_more(
            buf,
            pointer_at(buf, offset),
            (pointers - 1) as nat,
            (more - 1) as nat,
        );
    } else if buf[offset] > 0 {
        lemma_trail_more(buf, offset + 1 + buf[offset], pointers, more);
    }
}

proof fn lemma_trail_enough(buf: Seq<u8>, offset: int, pointers: nat, fewer: nat)
    requires
        name_at(buf, offset, pointers) is Some,
        trail(buf, offset, pointers).len() <= fewer,
    ensures
        name_at(buf, offset, fewer) is Some,
    decreases pointers, buf.len() - offset,
{
    if buf[offset] >= 0xc0 {
        lemma_trail_enough(
            buf,
            pointer_at(buf, offset),
            (pointers - 1) as nat,
            (fewer - 1) as nat,
        );
    } else if buf[offset] > 0 {
        lemma_trail_enough(buf, offset + 1 + buf[offset], pointers, fewer);
    }
}

/// Each place on the trail of a name is a name with the rest of the trail, and lies where a pointer
/// can point to.
proof fn lemma_trail_suffix(buf: Seq<u8>, offset: int, pointers: nat, i: int)
    requires
        name_at(buf, offset, pointers) is Some,
        0 <= i < trail(buf, offset, pointers).len(),
    ensures
        i < pointers,
        0 <= trail(buf, offset, pointers)[i] < MAX_POINTERS,
        name_at(buf, trail(buf, offset, pointers)[i], (pointers - i - 1) as nat) is Some,
        trail(buf, trail(buf, offset, pointers)[i], (pointers - i - 1) as nat).len() == trail(
            buf,
            offset,
            pointers,
        ).len() - i - 1,
    decreases pointers, buf.len() - offset,
{
    if buf[offset] >= 0xc0 {
        if i > 0 {
            lemma_trail_suffix(buf, pointer_at(buf, offset), (pointers - 1) as nat, i - 1);
        }
    } else if buf[offset] > 0 {
        lemma_trail_suffix(buf, offset + 1 + buf[offset], pointers, i);
    }
}

/// A name that takes more pointers than there are places has no end: it is not read with any number
/// of them.
pub proof fn no_more_pointers_needed(buf: Seq<u8>, offset: int, pointers: nat)
    requires
        name_at(buf, offset, pointers) is Some,
    ensures
        name_at(buf, offset, MAX_POINTERS as nat) == name_at(buf, offset, pointers),
{
    let t = trail(buf, offset, pointers);
    assert(t.no_duplicates()) by {
        assert forall|i: int, j: int| 0 <= i < j < t.len() implies t[i] != t[j] by {
            lemma_trail_suffix(buf, offset, pointers, i);
            lemma_trail_suffix(buf, offset, pointers, j);
            if t[i] == t[j] {
                lemma_trail_more(
                    buf,
                    t[j],
                    (pointers - j - 1) as nat,
                    (pointers - i - 1) as nat,
                );
            }
        }
    }
    let places = vstd::set_lib::set_int_range(0, MAX_POINTERS as int);
    vstd::set_lib::lemma_int_range(0, MAX_POINTERS as int);
    t.unique_seq_to_set();
    assert forall|x: int| t.to_set().contains(x) implies places.contains(x) by {
        let i = choose|i: int| 0 <= i < t.len() && t[i] == x;
        lemma_trail_suffix(buf, offset, pointers, i);
    }
    vstd::set_lib::lemma_len_subset(t.to_set(), places);
    lemma_trail_enough(buf, offset, pointers, MAX_POINTERS as nat);
    if pointers <= MAX_POINTERS {
        more_pointers_same_name(buf, offset, pointers, MAX_POINTERS as nat);
    } else {
        more_pointers_same_name(buf, offset, MAX_POINTERS as nat, pointers);
    }
}

// ---- The parts of a message ----
/// The header of a message.
#[derive(Clone, Copy, PartialEq, Eq, Structural, Debug)]
pub struct ProbeHeader {
    pub id: u16,
    pub flags: u16,
    pub questions: u16,
    pub answers: u16,
    pub authority: u16,
    pub additional: u16,
}

/// The number in two bytes.
pub open spec fn u16_at(buf: Seq<u8>, at: int) -> u16 {
    (buf[at] * 256 + buf[at + 1]) as u16
}

/// The number in four bytes.
pub open spec fn u32_at(buf: Seq<u8>, at: int) -> u32 {
    (buf[at] * 0x100_0000 + buf[at + 1] * 0x1_0000 + buf[at + 2] * 256 + buf[at + 3]) as u32
}

fn read_u16(buf: &[u8], at: usize) -> (r: u16)
    requires
        at + 1 < buf@.len(),
    ensures
        r == u16_at(buf@, at as int),
{
    buf[at] as u16 * 256 + buf[at + 1] as u16
}

fn read_u32(buf: &[u8], at: usize) -> (r: u32)
    requires
        at + 3 < buf@.len(),
    ensures
        r == u32_at(buf@, at as int),
{
    buf[at] as u32 * 0x100_0000 + buf[at + 1] as u32 * 0x1_0000 + buf[at + 2] as u32 * 256 + buf[at
        + 3] as u32
}

pub open spec fn header_spec(buf: Seq<u8>) -> ProbeHeader {
    ProbeHeader {
        id: u16_at(buf, 0),
        flags: u16_at(buf, 2),
        questions: u16_at(buf, 4),
        answers: u16_at(buf, 6),
        authority: u16_at(buf, 8),
        additional: u16_at(buf, 10),
    }
}

/// Reads the header of a message. A message of no more than a header is not looked at.
pub fn parse_header(buf: &[u8], received: usize) -> (r: Option<ProbeHeader>)
    requires
        received <= buf@.len(),
    ensures
        r == (if received > 12 {
            Some(header_spec(buf@))
        } else {
            None
        }),
{
    if received <= 12 {
        return None;
    }
    Some(
        ProbeHeader {
            id: read_u16(buf, 0),
            flags: read_u16(buf, 2),
            questions: read_u16(buf, 4),
            answers: read_u16(buf, 6),
            authority: read_u16(buf, 8),
            additional: read_u16(buf, 10),
        },
    )
}

/// The name of a record type.
pub fn record_name(rtype: u16) -> (r: &'static str)
    ensures
        r@ == (match rtype {
            1u16 => "A"@,
            2u16 => "NS"@,
            5u16 => "CNAME"@,
            6u16 => "SOA"@,
            12u16 => "PTR"@,
            15u16 => "MX"@,
            16u16 => "TXT"@,
            28u16 => "AAAA"@,
            _ => "未知"@,
        }),
{
    match rtype {
        1 => "A",
        2 => "NS",
        5 => "CNAME",
        6 => "SOA",
        12 => "PTR",
        15 => "MX",
        16 => "TXT",
        28 => "AAAA",
        _ => "未知",
    }
}

/// The name of a class.
pub fn class_name(class: u16) -> (r: &'static str)
    ensures
        r@ == (if class == 1 {
            "IN"@
        } else {
            "未知"@
        }),
{
    if class == 1 {
        "IN"
    } else {
        "未知"
    }
}

/// A question.
#[derive(Debug)]
pub struct ProbeQuestion {
    pub name: String,
    pub qtype: u16,
    pub qclass: u16,
}

#[verifier::ext_equal]
pub struct ProbeQuestionView {
    pub name: Seq<char>,
    pub qtype: u16,
    pub qclass: u16,
}

impl View for ProbeQuestion {
    type V = ProbeQuestionView;

    open spec fn view(&self) -> ProbeQuestionView {
        ProbeQuestionView { name: self.name@, qtype: self.qtype, qclass: self.qclass }
    }
}

/// What is shown of the data of a record.
#[derive(Debug)]
pub enum ProbeData {
    /// A record of a type that is taken apart, but whose length is wrong.
    Nothing,
    V4(Vec<u8>),
    V6(Vec<u8>),
    Cname(String),
    Raw(Vec<u8>),
}

#[verifier::ext_equal]
pub enum ProbeDataView {
    Nothing,
    V4(Seq<u8>),
    V6(Seq<u8>),
    Cname(Seq<char>),
    Raw(Seq<u8>),
}

impl View for ProbeData {
    type V = ProbeDataView;

    open spec fn view(&self) -> ProbeDataView {
        match self {
            ProbeData::Nothing => ProbeDataView::Nothing,
            ProbeData::V4(b) => ProbeDataView::V4(b@),
            ProbeData::V6(b) => ProbeDataView::V6(b@),
            ProbeData::Cname(n) => ProbeDataView::Cname(n@),
            ProbeData::Raw(b) => ProbeDataView::Raw(b@),
        }
    }
}

/// An answer.
#[derive(Debug)]
pub struct ProbeAnswer {
    pub name: String,
    pub rtype: u16,
    pub rclass: u16,
    pub ttl: u32,
    pub rdlength: u16,
    pub data: ProbeData,
}

#[verifier::ext_equal]
pub struct ProbeAnswerView {
    pub name: Seq<char>,
    pub rtype: u16,
    pub rclass: u16,
    pub ttl: u32,
    pub rdlength: u16,
    pub data: ProbeDataView,
}

impl View for ProbeAnswer {
    type V = ProbeAnswerView;

    open spec fn view(&self) -> ProbeAnswerView {
        ProbeAnswerView {
            name: self.name@,
            rtype: self.rtype,
            rclass: self.rclass,
            ttl: self.ttl,
            rdlength: self.rdlength,
            data: self.data@,
        }
    }
}

pub open spec fn name_spec(buf: Seq<u8>, offset: int) -> Option<(Seq<char>, int)> {
    name_at(buf, offset, MAX_POINTERS as nat)
}

/// The question that stands at `offset`, and the place behind it.
pub open spec fn question_at(buf: Seq<u8>, offset: int) -> Option<(ProbeQuestionView, int)> {
    match name_spec(buf, offset) {
        Some((name, at)) => if at + 4 <= buf.len() {
            Some(
                (
                    ProbeQuestionView {
                        name,
                        qtype: u16_at(buf, at),
                        qclass: u16_at(buf, at + 2),
                    },
                    at + 4,
                ),
            )
        } else {
            None
        },
        None => None,
    }
}

/// Reads the question that stands at `offset`. Nothing where the bytes end too early.
pub fn read_question(buf: &[u8], offset: usize) -> (r: Option<(ProbeQuestion, usize)>)
    requires
        buf@.len() <= usize::MAX - 2,
    ensures
        match r {
            Some((q, end)) => question_at(buf@, offset as int) == Some((q@, end as int)),
            None => question_at(buf@, offset as int) is None,
        },
{
    match parse_domain_name(buf, offset) {
        Some((name, at)) => {
            if at > buf.len() || buf.len() - at < 4 {
                return None;
            }
            Some(
                (
                    ProbeQuestion {
                        name,
                        qtype: read_u16(buf, at),
                        qclass: read_u16(buf, at + 2),
                    },
                    at + 4,
                ),
            )
        },
        None => None,
    }
}

/// The data of a record of a type, which stands at `at` and has `len` bytes.
pub open spec fn data_at(buf: Seq<u8>, rtype: u16, at: int, len: int) -> Option<ProbeDataView> {
    if rtype == 1 {
        if len != 4 {
            Some(ProbeDataView::Nothing)
        } else if at + 4 <= buf.len() {
            Some(ProbeDataView::V4(buf.subrange(at, at + 4)))
        } else {
            None
        }
    } else if rtype == 5 {
        match name_spec(buf, at) {
            Some((name, _)) => Some(ProbeDataView::Cname(name)),
            None => None,
        }
    } else if rtype == 28 {
        if len != 16 {
            Some(ProbeDataView::Nothing)
        } else if at + 16 <= buf.len() {
            Some(ProbeDataView::V6(buf.subrange(at, at + 16)))
        } else {
            None
        }
    } else if at + len <= buf.len() {
        Some(ProbeDataView::Raw(buf.subrange(at, at + len)))
    } else {
        None
    }
}

fn read_data(buf: &[u8], rtype: u16, at: usize, len: u16) -> (r: Option<ProbeData>)
    requires
        at <= buf@.len() <= usize::MAX - 2,
    ensures
        match r {
            Some(d) => data_at(buf@, rtype, at as int, len as int) == Some(d@),
            None => data_at(buf@, rtype, at as int, len as int) is None,
        },
{
    let room: usize = buf.len() - at;
    if rtype == 1 {
        if len != 4 {
            Some(ProbeData::Nothing)
        } else if room >= 4 {
            Some(ProbeData::V4(slice_to_vec(slice_subrange(buf, at, at + 4))))
        } else {
            None
        }
    } else if rtype == 5 {
        match parse_domain_name(buf, at) {
            Some((name, _)) => Some(ProbeData::Cname(name)),
            None => None,
        }
    } else if rtype == 28 {
        if len != 16 {
            Some(ProbeData::Nothing)
        } else if room >= 16 {
            Some(ProbeData::V6(slice_to_vec(slice_subrange(buf, at, at + 16))))
        } else {
            None
        }
    } else if room >= len as usize {
        Some(ProbeData::Raw(slice_to_vec(slice_subrange(buf, at, at + len as usize))))
    } else {
        None
    }
}

/// The answer that stands at `offset`, and the place behind it.
pub open spec fn answer_at(buf: Seq<u8>, offset: int) -> Option<(ProbeAnswerView, int)> {
    match name_spec(buf, offset) {
        Some((name, at)) => if at + 10 <= buf.len() {
            let rtype = u16_at(buf, at);
            let rdlength = u16_at(buf, at + 8);
            match data_at(buf, rtype, at + 10, rdlength as int) {
                Some(data) => Some(
                    (
                        ProbeAnswerView {
                            name,
                            rtype,
                            rclass: u16_at(buf, at + 2),
                            ttl: u32_at(buf, at + 4),
                            rdlength,
                            data,
                        },
                        at + 10 + rdlength,
                    ),
                ),
                None => None,
            }
        } else {
            None
        },
        None => None,
    }
}

/// Reads the answer that stands at `offset`. Nothing where the bytes end too early.
pub fn read_answer(buf: &[u8], offset: usize) -> (r: Option<(ProbeAnswer, usize)>)
    requires
        buf@.len() <= usize::MAX - 0x1_0000,
    ensures
        match r {
            Some((a, end)) => answer_at(buf@, offset as int) == Some((a@, end as int)),
            None => answer_at(buf@, offset as int) is None,
        },
{
    match parse_domain_name(buf, offset) {
        Some((name, at)) => {
            if at > buf.len() || buf.len() - at < 10 {
                return None;
            }
            let rtype: u16 = read_u16(buf, at);
            let rdlength: u16 = read_u16(buf, at + 8);
            match read_data(buf, rtype, at + 10, rdlength) {
                Some(data) => Some(
                    (
                        ProbeAnswer {
                            name,
                            rtype,
                            rclass: read_u16(buf, at + 2),
                            ttl: read_u32(buf, at + 4),
                            rdlength,
                            data,
                        },
                        at + 10 + rdlength as usize,
                    ),
                ),
                None => None,
            }
        },
        None => None,
    }
}

// ---- A whole message ----
pub open spec fn question_views(s: Seq<ProbeQuestion>) -> Seq<ProbeQuestionView> {
    Seq::new(s.len(), |i: int| s[i]@)
}

pub open spec fn answer_views(s: Seq<ProbeAnswer>) -> Seq<ProbeAnswerView> {
    Seq::new(s.len(), |i: int| s[i]@)
}

/// The first `n` questions of a message, and the place behind them.
pub open spec fn questions_spec(buf: Seq<u8>, n: nat) -> Option<(Seq<ProbeQuestionView>, int)>
    decreases n,
{
    if n == 0 {
        Some((Seq::empty(), 12))
    } else {
        match questions_spec(buf, (n - 1) as nat) {
            Some((list, at)) => match question_at(buf, at) {
                Some((q, end)) => Some((list.push(q), end)),
                None => None,
            },
            None => None,
        }
    }
}

/// The first `n` answers of a message, which begin at `start`, and the place behind them.
pub open spec fn answers_spec(buf: Seq<u8>, start: int, n: nat) -> Option<
    (Seq<ProbeAnswerView>, int),
>
    decreases n,
{
    if n == 0 {
        Some((Seq::empty(), start))
    } else {
        match answers_spec(buf, start, (n - 1) as nat) {
            Some((list, at)) => match answer_at(buf, at) {
                Some((a, end)) => Some((list.push(a), end)),
                None => None,
            },
            None => None,
        }
    }
}

proof fn lemma_cut_short(buf: Seq<u8>, start: int, k: nat, n: nat)
    requires
        k <= n,
    ensures
        questions_spec(buf, k) is None ==> questions_spec(buf, n) is None,
        answers_spec(buf, start, k) is None ==> answers_spec(buf, start, n) is None,
    decreases n,
{
    if k < n {
        lemma_cut_short(buf, start, k, (n - 1) as nat);
    }
}

/// Reads the questions of a message, and says where they end.
pub fn read_questions(buf: &[u8], n: u16) -> (r: Option<(Vec<ProbeQuestion>, usize)>)
    requires
        buf@.len() <= usize::MAX - 2,
    ensures
        match r {
            Some((list, end)) => questions_spec(buf@, n as nat) == Some(
                (question_views(list@), end as int),
            ),
            None => questions_spec(buf@, n as nat) is None,
        },
{
    let mut list: Vec<ProbeQuestion> = Vec::new();
    let mut at: usize = 12;
    let mut i: u16 = 0;
    assert(question_views(list@) =~= Seq::<ProbeQuestionView>::empty());
    while i < n
        invariant
            i <= n,
            buf@.len() <= usize::MAX - 2,
            questions_spec(buf@, i as nat) == Some((question_views(list@), at as int)),
        decreases n - i,
    {
        match read_question(buf, at) {
            Some((q, end)) => {
                let ghost before = question_views(list@);
                list.push(q);
                assert(question_views(list@) =~= before.push(q@));
                at = end;
            },
            None => {
                proof {
                    lemma_cut_short(buf@, 0, (i + 1) as nat, n as nat);
                }
                return None;
            },
        }
        i += 1;
    }
    Some((list, at))
}

/// Reads the answers of a message, which begin at `start`.
pub fn read_answers(buf: &[u8], start: usize, n: u16) -> (r: Option<(Vec<ProbeAnswer>, usize)>)
    requires
        buf@.len() <= usize::MAX - 0x1_0000,
    ensures
        match r {
            Some((list, end)) => answers_spec(buf@, start as int, n as nat) == Some(
                (answer_views(list@), end as int),
            ),
            None => answers_spec(buf@, start as int, n as nat) is None,
        },
{
    let mut list: Vec<ProbeAnswer> = Vec::new();
    let mut at: usize = start;
    let mut i: u16 = 0;
    assert(answer_views(list@) =~= Seq::<ProbeAnswerView>::empty());
    while i < n
        invariant
            i <= n,
            buf@.len() <= usize::MAX - 0x1_0000,
            answers_spec(buf@, start as int, i as nat) == Some((answer_views(list@), at as int)),
        decreases n - i,
    {
        match read_answer(buf, at) {
            Some((a, end)) => {
                let ghost before = answer_views(list@);
                list.push(a);
                assert(answer_views(list@) =~= before.push(a@));
                at = end;
            },
            None => {
                proof {
                    lemma_cut_short(buf@, start as int, (i + 1) as nat, n as nat);
                }
                return None;
            },
        }
        i += 1;
    }
    Some((list, at))
}

// ---- Laws: what a message says ----
/// Labels as they stand in a message, each behind its length.
pub open spec fn spelled(labels: Seq<Seq<u8>>) -> Seq<u8>
    decreases labels.len(),
{
    if labels.len() == 0 {
        Seq::empty()
    } else {
        seq![labels[0].len() as u8] + labels[0] + spelled(labels.drop_first())
    }
}

/// Labels as they are shown, with dots between them.
pub open spec fn dotted_labels(labels: Seq<Seq<u8>>) -> Seq<char>
    decreases labels.len(),
{
    if labels.len() == 0 {
        Seq::empty()
    } else if labels.len() == 1 {
        label_text(labels[0])
    } else {
        label_text(labels[0]) + seq!['.'] + dotted_labels(labels.drop_first())
    }
}

/// Whether every label has a length that stands in one byte and is no pointer.
pub open spec fn are_labels(labels: Seq<Seq<u8>>) -> bool {
    forall|i: int| 0 <= i < labels.len() ==> 1 <= (#[trigger] labels[i]).len() < 0xc0
}

/// A name is read where it stands, whatever is around it, with its labels in their order and dots between
/// them, up to the zero behind it.
pub proof fn names_are_read(front: Seq<u8>, labels: Seq<Seq<u8>>, rest: Seq<u8>, pointers: nat)
    requires
        are_labels(labels),
    ensures
        name_at(front + spelled(labels) + seq![0u8] + rest, front.len() as int, pointers) == Some(
            (dotted_labels(labels), front.len() as int + spelled(labels).len() + 1),
        ),
    decreases labels.len(),
{
    let buf = front + spelled(labels) + seq![0u8] + rest;
    let at = front.len() as int;
    if labels.len() == 0 {
        assert(buf[at] == 0);
    } else {
        let label = labels[0];
        let more = labels.drop_first();
        assert(are_labels(more)) by {
            assert forall|i: int| 0 <= i < more.len() implies 1 <= (#[trigger] more[i]).len()
                < 0xc0 by {
                assert(more[i] == labels[i + 1]);
            }
        }
        let head = front + (seq![label.len() as u8] + label);
        assert(buf =~= head + spelled(more) + seq![0u8] + rest);
        names_are_read(head, more, rest, pointers);
        let next = at + 1 + label.len();
        assert(buf[at] == label.len());
        assert(buf.subrange(at + 1, next) =~= label);
        if more.len() == 0 {
            assert(buf[next] == 0);
            assert(label_text(label) + Seq::<char>::empty() + Seq::<char>::empty() =~= label_text(
                label,
            ));
        } else {
            assert(buf[next] == more[0].len());
            assert(more[0] == labels[1]);
        }
    }
}

/// A pointer stands for the name at the place that it points to, and the reader goes on three bytes
/// behind its own place.
pub proof fn pointers_are_followed(buf: Seq<u8>, offset: int, place: u16, pointers: nat)
    requires
        place < 0x4000,
        0 <= offset,
        offset + 1 < buf.len(),
        buf[offset] == 0xc0 + place / 256,
        buf[offset + 1] == place % 256,
        pointers > 0,
    ensures
        match name_at(buf, place as int, (pointers - 1) as nat) {
            Some((name, _)) => name_at(buf, offset, pointers) == Some((name, offset + 3)),
            None => name_at(buf, offset, pointers) is None,
        },
{
    assert(pointer_at(buf, offset) == place);
}

/// The header of a message is six numbers of two bytes, high byte first. A message of twelve bytes or
/// fewer has none.
pub proof fn headers_are_read(buf: &[u8], received: usize, r: Option<ProbeHeader>)
    requires
        received <= buf@.len(),
        call_ensures(parse_header, (buf, received), r),
    ensures
        r is Some <==> received > 12,
        r matches Some(h) ==> h.id == buf@[0] * 256 + buf@[1] && h.flags == buf@[2] * 256 + buf@[3]
            && h.questions == buf@[4] * 256 + buf@[5] && h.answers == buf@[6] * 256 + buf@[7]
            && h.authority == buf@[8] * 256 + buf@[9] && h.additional == buf@[10] * 256 + buf@[11],
{
}

/// A question is a name, its type and its class.
pub proof fn questions_are_read(
    buf: &[u8],
    offset: usize,
    r: Option<(ProbeQuestion, usize)>,
    front: Seq<u8>,
    labels: Seq<Seq<u8>>,
    qtype: u16,
    qclass: u16,
    rest: Seq<u8>,
)
    requires
        buf@.len() <= usize::MAX - 2,
        are_labels(labels),
        offset == front.len(),
        buf@ == front + spelled(labels) + seq![0u8] + seq![
            (qtype / 256) as u8,
            (qtype % 256) as u8,
            (qclass / 256) as u8,
            (qclass % 256) as u8,
        ] + rest,
        call_ensures(read_question, (buf, offset), r),
    ensures
        r matches Some((q, end)) && q.name@ == dotted_labels(labels) && q.qtype == qtype && q.qclass
            == qclass && end + rest.len() == buf@.len(),
{
    let numbers = seq![
        (qtype / 256) as u8,
        (qtype % 256) as u8,
        (qclass / 256) as u8,
        (qclass % 256) as u8,
    ];
    assert(buf@ =~= front + spelled(labels) + seq![0u8] + (numbers + rest));
    names_are_read(front, labels, numbers + rest, MAX_POINTERS as nat);
    let at = front.len() as int + spelled(labels).len() + 1;
    assert(buf@[at] == numbers[0] && buf@[at + 1] == numbers[1] && buf@[at + 2] == numbers[2]
        && buf@[at + 3] == numbers[3]);
}

/// An answer is a name, its type, its class, how long it holds, and its data behind their length. The
/// four bytes of an IPv4 address and the sixteen of an IPv6 address are shown as such, the data of an
/// unknown type as they are, and an address of a wrong length not at all.
pub proof fn answers_are_read(
    buf: &[u8],
    offset: usize,
    r: Option<(ProbeAnswer, usize)>,
    front: Seq<u8>,
    labels: Seq<Seq<u8>>,
    rtype: u16,
    rclass: u16,
    ttl: u32,
    data: Seq<u8>,
    rest: Seq<u8>,
)
    requires
        buf@.len() <= usize::MAX - 0x1_0000,
        are_labels(labels),
        offset == front.len(),
        data.len() < 0x1_0000,
        rtype != 5,
        buf@ == front + spelled(labels) + seq![0u8] + seq![
            (rtype / 256) as u8,
            (rtype % 256) as u8,
            (rclass / 256) as u8,
            (rclass % 256) as u8,
            (ttl / 0x100_0000) as u8,
            (ttl / 0x1_0000 % 256) as u8,
            (ttl / 0x100 % 256) as u8,
            (ttl % 256) as u8,
            (data.len() / 256) as u8,
            (data.len() % 256) as u8,
        ] + data + rest,
        call_ensures(read_answer, (buf, offset), r),
    ensures
        r matches Some((a, end)) && a.name@ == dotted_labels(labels) && a.rtype == rtype && a.rclass
            == rclass && a.ttl == ttl && a.rdlength == data.len() && end + rest.len() == buf@.len()
            && (if rtype == 1 {
            if data.len() == 4 {
                a.data matches ProbeData::V4(b) && b@ == data
            } else {
                a.data is Nothing
            }
        } else if rtype == 28 {
            if data.len() == 16 {
                a.data matches ProbeData::V6(b) && b@ == data
            } else {
                a.data is Nothing
            }
        } else {
            a.data matches ProbeData::Raw(b) && b@ == data
        }),
{
    let n = seq![
        (rtype / 256) as u8,
        (rtype % 256) as u8,
        (rclass / 256) as u8,
        (rclass % 256) as u8,
        (ttl / 0x100_0000) as u8,
        (ttl / 0x1_0000 % 256) as u8,
        (ttl / 0x100 % 256) as u8,
        (ttl % 256) as u8,
        (data.len() / 256) as u8,
        (data.len() % 256) as u8,
    ];
    assert(buf@ =~= front + spelled(labels) + seq![0u8] + (n + data + rest));
    names_are_read(front, labels, n + data + rest, MAX_POINTERS as nat);
    let at = front.len() as int + spelled(labels).len() + 1;
    assert forall|i: int| 0 <= i < 10 implies #[trigger] buf@[at + i] == n[i] by {
        assert((n + data + rest)[i] == n[i]);
    }
    assert(buf@[at + 0] == n[0] && buf@[at + 1] == n[1] && buf@[at + 2] == n[2] && buf@[at + 3]
        == n[3]);
    assert(buf@[at + 4] == n[4] && buf@[at + 5] == n[5] && buf@[at + 6] == n[6] && buf@[at + 7]
        == n[7]);
    assert(buf@[at + 8] == n[8] && buf@[at + 9] == n[9]);
    assert(u16_at(buf@, at) == rtype);
    assert(u16_at(buf@, at + 2) == rclass);
    assert(u32_at(buf@, at + 4) == ttl);
    assert(u16_at(buf@, at + 8) == data.len());
    assert(buf@.subrange(at + 10, at + 10 + data.len()) =~= data);
}

/// An alias shows the name that its data spell.
pub proof fn aliases_are_read(front: Seq<u8>, labels: Seq<Seq<u8>>, rest: Seq<u8>, len: int)
    requires
        are_labels(labels),
    ensures
        data_at(
            front + spelled(labels) + seq![0u8] + rest,
            5,
            front.len() as int,
            len,
        ) == Some(ProbeDataView::Cname(dotted_labels(labels))),
{
    names_are_read(front, labels, rest, MAX_POINTERS as nat);
}

/// The types and the class that are known have names of their own.
pub proof fn known_types_are_named(t: u16, u: u16, a: &'static str, b: &'static str)
    requires
        call_ensures(record_name, (t,), a),
        call_ensures(record_name, (u,), b),
    ensures
        t == 1 ==> a@ == "A"@,
        t == 28 ==> a@ == "AAAA"@,
        t == 5 ==> a@ == "CNAME"@,
        t == 2 ==> a@ == "NS"@,
        t == 6 ==> a@ == "SOA"@,
        t == 12 ==> a@ == "PTR"@,
        t == 15 ==> a@ == "MX"@,
        t == 16 ==> a@ == "TXT"@,
        a@ == b@ && a@.len() != 2 ==> t == u,
{
    reveal_strlit("A");
    reveal_strlit("NS");
    reveal_strlit("CNAME");
    reveal_strlit("SOA");
    reveal_strlit("PTR");
    reveal_strlit("MX");
    reveal_strlit("TXT");
    reveal_strlit("AAAA");
    reveal_strlit("未知");
    assert("SOA"@[0] == 'S' && "PTR"@[0] == 'P' && "TXT"@[0] == 'T');
}

} // verus!
