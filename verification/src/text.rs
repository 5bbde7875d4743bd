//! Text as sequences of characters.
use vstd::prelude::*;
use vstd::slice::slice_subrange;
use vstd::utf8::decode_utf8;
use vstd::utf8::valid_utf8;

verus! {

/// `<str>::to_lowercase`: the text in lower case, by the Unicode tables of the standard library.
pub uninterp spec fn lowercase(s: Seq<char>) -> Seq<char>;

/// The characters with the Unicode property `White_Space`.
pub open spec fn is_whitespace(c: char) -> bool {
    let n = c as u32;
    ||| 0x9 <= n <= 0xd
    ||| n == 0x20
    ||| n == 0x85
    ||| n == 0xa0
    ||| n == 0x1680
    ||| 0x2000 <= n <= 0x200a
    ||| 0x2028 <= n <= 0x2029
    ||| n == 0x202f
    ||| n == 0x205f
    ||| n == 0x3000
}

/// Calls `<str>::to_lowercase`. Its result is a function of the text alone; which character maps
/// to which is not stated.
#[verifier::external_body]
pub(crate) fn str_to_lowercase(s: &str) -> (r: String)
    ensures
        r@ == lowercase(s@),
{
    s.to_lowercase()
}

/// Calls `char::is_whitespace`, which tells the characters with the Unicode property `White_Space`.
#[verifier::external_body]
pub(crate) fn char_is_whitespace(c: char) -> (r: bool)
    ensures
        r == is_whitespace(c),
{
    c.is_whitespace()
}

/// Collects characters into a `String` with `FromIterator<char>`: the characters in their order.
#[verifier::external_body]
pub(crate) fn string_of(chars: &[char]) -> (r: String)
    ensures
        r@ == chars@,
{
    chars.iter().collect()
}

/// The characters of a text, in order.
pub fn chars_of(s: &str) -> (v: Vec<char>)
    ensures
        v@ == s@,
{
    let mut v: Vec<char> = Vec::new();
    for c in it: s.chars()
        invariant
            v@ == it.seq().take(it.index() as int),
            it.seq() == s@,
    {
        v.push(c);
        assert(it.seq().take(it.index() + 1) =~= it.seq().take(it.index() as int).push(c));
    }
    assert(v@ =~= s@);
    v
}

/// Calls `std::str::from_utf8`: the text whose UTF-8 encoding the bytes are, if there is one.
#[verifier::external_body]
pub(crate) fn str_from_utf8(b: &[u8]) -> (r: Option<&str>)
    ensures
        match r {
            Some(t) => valid_utf8(b@) && t@ == decode_utf8(b@),
            None => !valid_utf8(b@),
        },
{
    std::str::from_utf8(b).ok()
}

/// The characters `from` to `to` of a text.
pub fn slice_of(s: &[char], from: usize, to: usize) -> (r: String)
    requires
        from <= to <= s@.len(),
    ensures
        r@ == s@.subrange(from as int, to as int),
{
    string_of(slice_subrange(s, from, to))
}

/// Whether two texts hold the same characters.
pub fn same_chars(a: &[char], b: &[char]) -> (r: bool)
    ensures
        r == (a@ == b@),
{
    if a.len() != b.len() {
        return false;
    }
    let mut i: usize = 0;
    while i < a.len()
        invariant
            a@.len() == b@.len(),
            i <= a@.len(),
            forall|j: int| 0 <= j < i ==> a@[j] == b@[j],
        decreases a@.len() - i,
    {
        if a[i] != b[i] {
            return false;
        }
        i += 1;
    }
    assert(a@ =~= b@);
    true
}

/// Whether `t` stands in `s` at `at`.
pub open spec fn stands_at(s: Seq<char>, at: int, t: Seq<char>) -> bool {
    0 <= at && at + t.len() <= s.len() && s.subrange(at, at + t.len()) == t
}

pub fn is_at(s: &[char], at: usize, t: &[char]) -> (r: bool)
    ensures
        r == stands_at(s@, at as int, t@),
{
    if at > s.len() || t.len() > s.len() - at {
        return false;
    }
    same_chars(slice_subrange(s, at, at + t.len()), t)
}

/// Whether `s` begins with `t`.
pub open spec fn starts_with(s: Seq<char>, t: Seq<char>) -> bool {
    stands_at(s, 0, t)
}

/// Whether `s` ends with `t`.
pub open spec fn ends_with(s: Seq<char>, t: Seq<char>) -> bool {
    stands_at(s, s.len() - t.len(), t)
}

/// Whether `t` occurs in `s`.
pub open spec fn contains(s: Seq<char>, t: Seq<char>) -> bool {
    exists|at: int| stands_at(s, at, t)
}

pub fn has_prefix(s: &[char], t: &[char]) -> (r: bool)
    ensures
        r == starts_with(s@, t@),
{
    is_at(s, 0, t)
}

pub fn has_suffix(s: &[char], t: &[char]) -> (r: bool)
    ensures
        r == ends_with(s@, t@),
{
    if t.len() > s.len() {
        false
    } else {
        is_at(s, s.len() - t.len(), t)
    }
}

pub fn has_substring(s: &[char], t: &[char]) -> (r: bool)
    ensures
        r == contains(s@, t@),
{
    if t.len() > s.len() {
        return false;
    }
    let mut at: usize = 0;
    while at <= s.len() - t.len()
        invariant
            t@.len() <= s@.len(),
            at <= s@.len() - t@.len() + 1,
            forall|j: int| 0 <= j < at ==> !stands_at(s@, j, t@),
        decreases s@.len() - t@.len() + 1 - at,
    {
        if is_at(s, at, t) {
            return true;
        }
        if at == s.len() - t.len() {
            return false;
        }
        at += 1;
    }
    false
}

/// The text without the white space that it begins with.
pub open spec fn trim_start(s: Seq<char>) -> Seq<char>
    decreases s.len(),
{
    if s.len() > 0 && is_whitespace(s[0]) {
        trim_start(s.drop_first())
    } else {
        s
    }
}

/// The text without the white space that it ends with.
pub open spec fn trim_end(s: Seq<char>) -> Seq<char>
    decreases s.len(),
{
    if s.len() > 0 && is_whitespace(s.last()) {
        trim_end(s.drop_last())
    } else {
        s
    }
}

/// The text without the white space around it.
pub open spec fn trimmed(s: Seq<char>) -> Seq<char> {
    trim_end(trim_start(s))
}

/// The text without the characters `c` that it ends with.
pub open spec fn trim_end_char(s: Seq<char>, c: char) -> Seq<char>
    decreases s.len(),
{
    if s.len() > 0 && s.last() == c {
        trim_end_char(s.drop_last(), c)
    } else {
        s
    }
}

/// Drops the white space around a text.
pub fn trim(s: &[char]) -> (r: &[char])
    ensures
        r@ == trimmed(s@),
{
    let mut from: usize = 0;
    assert(s@.subrange(0, s@.len() as int) =~= s@);
    while from < s.len() && char_is_whitespace(s[from])
        invariant
            from <= s@.len(),
            trim_start(s@) == trim_start(s@.subrange(from as int, s@.len() as int)),
        decreases s@.len() - from,
    {
        assert(s@.subrange(from as int, s@.len() as int).drop_first() =~= s@.subrange(
            from + 1,
            s@.len() as int,
        ));
        from += 1;
    }
    let ghost rest = s@.subrange(from as int, s@.len() as int);
    assert(trim_start(s@) == rest);
    let mut to: usize = s.len();
    while to > from && char_is_whitespace(s[to - 1])
        invariant
            from <= to <= s@.len(),
            rest == s@.subrange(from as int, s@.len() as int),
            trim_end(rest) == trim_end(s@.subrange(from as int, to as int)),
        decreases to,
    {
        assert(s@.subrange(from as int, to as int).drop_last() =~= s@.subrange(
            from as int,
            to - 1,
        ));
        to -= 1;
    }
    slice_subrange(s, from, to)
}

/// Drops the characters `c` that a text ends with.
pub fn drop_trailing(s: &[char], c: char) -> (r: &[char])
    ensures
        r@ == trim_end_char(s@, c),
{
    let mut to: usize = s.len();
    assert(s@.subrange(0, to as int) =~= s@);
    while to > 0 && s[to - 1] == c
        invariant
            to <= s@.len(),
            trim_end_char(s@, c) == trim_end_char(s@.subrange(0, to as int), c),
        decreases to,
    {
        assert(s@.subrange(0, to as int).drop_last() =~= s@.subrange(0, to - 1));
        to -= 1;
    }
    slice_subrange(s, 0, to)
}

/// The place of the first `c` in `s` from `from` on; the length of `s` where there is none.
pub open spec fn first_of(s: Seq<char>, c: char, from: int) -> int
    decreases s.len() - from,
{
    if from < 0 || from >= s.len() {
        s.len() as int
    } else if s[from] == c {
        from
    } else {
        first_of(s, c, from + 1)
    }
}

pub fn find_from(s: &[char], c: char, from: usize) -> (at: usize)
    requires
        from <= s@.len(),
    ensures
        at == first_of(s@, c, from as int),
        from <= at <= s@.len(),
        at < s@.len() ==> s@[at as int] == c,
        forall|j: int| from <= j < at ==> s@[j] != c,
{
    let mut at: usize = from;
    while at < s.len() && s[at] != c
        invariant
            from <= at <= s@.len(),
            first_of(s@, c, from as int) == first_of(s@, c, at as int),
            forall|j: int| from <= j < at ==> s@[j] != c,
        decreases s@.len() - at,
    {
        at += 1;
    }
    at
}

/// The place of the last `c` in `s`, or -1.
pub open spec fn last_of(s: Seq<char>, c: char) -> int
    decreases s.len(),
{
    if s.len() == 0 {
        -1
    } else if s.last() == c {
        s.len() - 1
    } else {
        last_of(s.drop_last(), c)
    }
}

pub fn rfind(s: &[char], c: char) -> (at: Option<usize>)
    ensures
        match at {
            Some(i) => i == last_of(s@, c) && i < s@.len() && s@[i as int] == c,
            None => last_of(s@, c) == -1,
        },
{
    let mut end: usize = s.len();
    assert(s@.subrange(0, end as int) =~= s@);
    while end > 0
        invariant
            end <= s@.len(),
            last_of(s@, c) == last_of(s@.subrange(0, end as int), c),
        decreases end,
    {
        assert(s@.subrange(0, end as int).drop_last() =~= s@.subrange(0, end - 1));
        if s[end - 1] == c {
            return Some(end - 1);
        }
        end -= 1;
    }
    None
}

/// A line without the carriage return that stands before its line feed.
pub open spec fn without_cr(s: Seq<char>) -> Seq<char> {
    if s.len() > 0 && s.last() == '\r' {
        s.drop_last()
    } else {
        s
    }
}

/// The lines of a text. A line ends with a line feed, or with a carriage return and a line feed;
/// the end of the last line is optional.
pub open spec fn lines_of(s: Seq<char>) -> Seq<Seq<char>>
    decreases s.len(),
{
    let end = first_of(s, '\n', 0);
    if s.len() == 0 {
        Seq::empty()
    } else if end < 0 || end >= s.len() {
        seq![s]
    } else {
        seq![without_cr(s.subrange(0, end))] + lines_of(s.subrange(end + 1, s.len() as int))
    }
}

/// The digit `d` as a character.
pub open spec fn digit_char(d: nat) -> char {
    (48 + d) as char
}

/// `n` in decimal notation.
pub open spec fn decimal(n: nat) -> Seq<char>
    decreases n,
{
    if n < 10 {
        seq![digit_char(n)]
    } else {
        decimal(n / 10).push(digit_char(n % 10))
    }
}

/// Appends `n` in decimal notation.
pub fn push_decimal(out: &mut Vec<char>, n: u64)
    ensures
        final(out)@ == old(out)@ + decimal(n as nat),
    decreases n,
{
    if n >= 10 {
        push_decimal(out, n / 10);
    }
    let d: u8 = 48 + (n % 10) as u8;
    out.push(d as char);
    assert(out@ =~= old(out)@ + decimal(n as nat));
}

pub open spec fn is_digit(c: char) -> bool {
    '0' <= c <= '9'
}

/// The number that decimal digits spell.
pub open spec fn digits_value(s: Seq<char>) -> nat
    decreases s.len(),
{
    if s.len() == 0 {
        0
    } else {
        digits_value(s.drop_last()) * 10 + (s.last() as nat - 48) as nat
    }
}

/// The text without the `+` that it begins with, if it does.
pub open spec fn without_plus(s: Seq<char>) -> Seq<char> {
    if s.len() > 0 && s[0] == '+' {
        s.drop_first()
    } else {
        s
    }
}

pub open spec fn all_digits(s: Seq<char>) -> bool {
    forall|i: int| 0 <= i < s.len() ==> is_digit(#[trigger] s[i])
}

/// What an unsigned integer of at most `max` is read from: digits, with one `+` allowed in front.
pub open spec fn parse_unsigned_spec(s: Seq<char>, max: nat) -> Option<nat> {
    let d = without_plus(s);
    if d.len() > 0 && all_digits(d) && digits_value(d) <= max {
        Some(digits_value(d))
    } else {
        None
    }
}

proof fn lemma_digits_value_grows(s: Seq<char>, k: int)
    requires
        0 <= k <= s.len(),
        all_digits(s),
    ensures
        digits_value(s.subrange(0, k)) <= digits_value(s),
    decreases s.len(),
{
    if k < s.len() {
        lemma_digits_value_grows(s.drop_last(), k);
        assert(s.drop_last().subrange(0, k) =~= s.subrange(0, k));
    } else {
        assert(s.subrange(0, k) =~= s);
    }
}

/// Reads an unsigned integer of at most `max` in decimal notation.
pub fn parse_unsigned(s: &[char], max: u64) -> (r: Option<u64>)
    requires
        max <= 0xffff_ffff,
    ensures
        match r {
            Some(n) => parse_unsigned_spec(s@, max as nat) == Some(n as nat),
            None => parse_unsigned_spec(s@, max as nat) is None,
        },
{
    let from: usize = if s.len() > 0 && s[0] == '+' {
        1
    } else {
        0
    };
    let d = slice_subrange(s, from, s.len());
    assert(d@ =~= without_plus(s@));
    if d.len() == 0 {
        return None;
    }
    let mut n: u64 = 0;
    let mut i: usize = 0;
    while i < d.len()
        invariant
            i <= d@.len(),
            n <= max <= 0xffff_ffff,
            n == digits_value(d@.subrange(0, i as int)),
            forall|j: int| 0 <= j < i ==> is_digit(#[trigger] d@[j]),
            d@ == without_plus(s@),
        decreases d@.len() - i,
    {
        let c: char = d[i];
        if c < '0' || c > '9' {
            assert(!is_digit(d@[i as int]));
            assert(!all_digits(d@));
            return None;
        }
        assert(d@.subrange(0, i + 1).drop_last() =~= d@.subrange(0, i as int));
        n = n * 10 + (c as u32 - 48) as u64;
        if n > max {
            proof {
                if all_digits(d@) {
                    lemma_digits_value_grows(d@, i + 1);
                }
            }
            return None;
        }
        i += 1;
    }
    assert(d@.subrange(0, i as int) =~= d@);
    Some(n)
}

/// Texts as sequences of characters.
pub open spec fn texts(s: Seq<String>) -> Seq<Seq<char>> {
    Seq::new(s.len(), |i: int| s[i]@)
}

pub proof fn lemma_texts_push(s: Seq<String>, t: String)
    ensures
        texts(s.push(t)) == texts(s).push(t@),
{
    assert(texts(s.push(t)) =~= texts(s).push(t@));
}

/// Copies texts.
pub fn copy_texts(v: &Vec<String>) -> (r: Vec<String>)
    ensures
        texts(r@) == texts(v@),
{
    let mut r: Vec<String> = Vec::new();
    let mut i: usize = 0;
    while i < v.len()
        invariant
            i <= v@.len(),
            r@.len() == i,
            forall|j: int| 0 <= j < i ==> (#[trigger] r@[j])@ == v@[j]@,
        decreases v@.len() - i,
    {
        r.push(v[i].clone());
        i += 1;
    }
    assert(texts(r@) =~= texts(v@));
    r
}

/// Whether two texts are the same.
pub fn same_text(a: &str, b: &str) -> (r: bool)
    ensures
        r == (a@ == b@),
{
    same_chars(chars_of(a).as_slice(), chars_of(b).as_slice())
}

/// Whether a text stands in a list.
pub fn has_text(v: &Vec<String>, t: &str) -> (r: bool)
    ensures
        r == texts(v@).contains(t@),
{
    let mut i: usize = 0;
    while i < v.len()
        invariant
            i <= v@.len(),
            forall|j: int| 0 <= j < i ==> #[trigger] texts(v@)[j] != t@,
        decreases v@.len() - i,
    {
        if same_text(v[i].as_str(), t) {
            assert(texts(v@)[i as int] == t@);
            return true;
        }
        i += 1;
    }
    false
}

/// What a list in a file says of one line: the text on it, or nothing where it is blank or begins
/// with `#`.
pub open spec fn listed_line(line: Seq<char>) -> Seq<Seq<char>> {
    if trimmed(line).len() > 0 && line[0] != '#' {
        seq![trimmed(line)]
    } else {
        Seq::empty()
    }
}

/// The texts that the lines of a file list.
pub open spec fn listed(lines: Seq<Seq<char>>) -> Seq<Seq<char>>
    decreases lines.len(),
{
    if lines.len() == 0 {
        Seq::empty()
    } else {
        listed_line(lines[0]) + listed(lines.drop_first())
    }
}

proof fn lemma_trimmed_empty()
    ensures
        trimmed(Seq::<char>::empty()) == Seq::<char>::empty(),
{
}

/// Reads the texts that a file lists, one on a line. Blank lines and lines that begin with `#`
/// are left out, and the white space around each text is dropped.
pub fn listed_lines(content: &str) -> (r: Vec<String>)
    ensures
        texts(r@) == listed(lines_of(content@)),
{
    let all: Vec<char> = chars_of(content);
    let mut r: Vec<String> = Vec::new();
    let mut at: usize = 0;
    assert(all@.subrange(0, all@.len() as int) =~= all@);
    assert(texts(r@) + listed(lines_of(all@)) =~= listed(lines_of(all@)));
    while at < all.len()
        invariant
            at <= all@.len(),
            all@ == content@,
            texts(r@) + listed(lines_of(all@.subrange(at as int, all@.len() as int))) == listed(
                lines_of(content@),
            ),
        decreases all@.len() - at,
    {
        let rest = slice_subrange(all.as_slice(), at, all.len());
        let end: usize = find_from(rest, '\n', 0);
        let cut: usize = if end < rest.len() && end > 0 && rest[end - 1] == '\r' {
            end - 1
        } else {
            end
        };
        let line = slice_subrange(rest, 0, cut);
        let ghost lines = lines_of(rest@);
        proof {
            assert(rest@.subrange(0, rest@.len() as int) =~= rest@);
            if end < rest@.len() {
                assert(line@ =~= without_cr(rest@.subrange(0, end as int)));
                assert(lines.drop_first() =~= lines_of(
                    rest@.subrange(end + 1, rest@.len() as int),
                ));
            } else {
                assert(line@ =~= rest@);
                assert(lines.drop_first() =~= Seq::<Seq<char>>::empty());
            }
            assert(lines[0] == line@);
            lemma_trimmed_empty();
        }
        let ghost before = texts(r@);
        let text = trim(line);
        if text.len() > 0 && line.len() > 0 && line[0] != '#' {
            let t = string_of(text);
            proof {
                lemma_texts_push(r@, t);
            }
            r.push(t);
            assert(texts(r@) =~= before + listed_line(line@));
        } else {
            assert(line@.len() == 0 ==> line@ =~= Seq::<char>::empty());
            assert(texts(r@) =~= before + listed_line(line@));
        }
        if end < rest.len() {
            assert(rest@.subrange(end + 1, rest@.len() as int) =~= all@.subrange(
                at + end + 1,
                all@.len() as int,
            ));
            at = at + end + 1;
        } else {
            at = all.len();
            assert(all@.subrange(at as int, all@.len() as int) =~= Seq::<char>::empty());
        }
        assert(texts(r@) + listed(lines.drop_first()) =~= before + listed(lines));
    }
    assert(all@.subrange(at as int, all@.len() as int) =~= Seq::<char>::empty());
    assert(texts(r@) + Seq::<Seq<char>>::empty() =~= texts(r@));
    r
}

/// `String::from_utf8_lossy`: the text that bytes spell, with a replacement character for each
/// part that is no UTF-8.
pub uninterp spec fn utf8_lossy(b: Seq<u8>) -> Seq<char>;

/// Calls `String::from_utf8_lossy`. Bytes that are UTF-8 give their text; where the replacement
/// characters stand otherwise is not stated.
#[verifier::external_body]
pub(crate) fn from_utf8_lossy(b: &[u8]) -> (r: String)
    ensures
        r@ == utf8_lossy(b@),
        valid_utf8(b@) ==> r@ == decode_utf8(b@),
{
    String::from_utf8_lossy(b).into_owned()
}

/// A character with the case of an ASCII letter taken away.
pub open spec fn ascii_lower(c: char) -> char {
    if 'A' <= c && c <= 'Z' {
        (c as u32 + 32) as char
    } else {
        c
    }
}

/// Whether two texts are the same but for the case of ASCII letters.
pub open spec fn same_but_case(a: Seq<char>, b: Seq<char>) -> bool {
    a.len() == b.len() && forall|i: int|
        0 <= i < a.len() ==> ascii_lower(#[trigger] a[i]) == ascii_lower(b[i])
}

fn lower(c: char) -> (r: char)
    ensures
        r == ascii_lower(c),
{
    if 'A' <= c && c <= 'Z' {
        (c as u8 + 32) as char
    } else {
        c
    }
}

/// Whether two texts are the same but for the case of ASCII letters.
pub fn same_ignoring_case(a: &str, b: &str) -> (r: bool)
    ensures
        r == same_but_case(a@, b@),
{
    let x: Vec<char> = chars_of(a);
    let y: Vec<char> = chars_of(b);
    if x.len() != y.len() {
        return false;
    }
    let mut i: usize = 0;
    while i < x.len()
        invariant
            i <= x@.len(),
            x@ == a@,
            y@ == b@,
            x@.len() == y@.len(),
            forall|j: int| 0 <= j < i ==> ascii_lower(#[trigger] a@[j]) == ascii_lower(b@[j]),
        decreases x@.len() - i,
    {
        if lower(x[i]) != lower(y[i]) {
            assert(ascii_lower(a@[i as int]) != ascii_lower(b@[i as int]));
            return false;
        }
        i += 1;
    }
    true
}

/// A text cut at its last `c`; nothing where it has none.
pub open spec fn cut_at_last(s: Seq<char>, c: char) -> Option<(Seq<char>, Seq<char>)> {
    let at = last_of(s, c);
    if at < 0 {
        None
    } else {
        Some((s.subrange(0, at), s.subrange(at + 1, s.len() as int)))
    }
}

// ---- Laws ----
/// A text is cut at its last separator, however many it has.
pub proof fn texts_are_cut_at_the_last(before: Seq<char>, after: Seq<char>, c: char)
    requires
        !after.contains(c),
    ensures
        cut_at_last(before + seq![c] + after, c) == Some((before, after)),
        cut_at_last(after, c) is None,
{
    let s = before + seq![c] + after;
    lemma_last_of(s, c, before.len() as int);
    assert(s.subrange(0, before.len() as int) =~= before);
    assert(s.subrange(before.len() as int + 1, s.len() as int) =~= after);
    lemma_no_last(after, c);
}

pub(crate) proof fn lemma_last_of(s: Seq<char>, c: char, at: int)
    requires
        0 <= at < s.len(),
        s[at] == c,
        forall|i: int| at < i < s.len() ==> s[i] != c,
    ensures
        last_of(s, c) == at,
    decreases s.len(),
{
    if at < s.len() - 1 {
        lemma_last_of(s.drop_last(), c, at);
    }
}

pub(crate) proof fn lemma_no_last(s: Seq<char>, c: char)
    requires
        !s.contains(c),
    ensures
        last_of(s, c) == -1,
    decreases s.len(),
{
    if s.len() > 0 {
        assert(s[s.len() - 1] != c);
        assert forall|i: int| 0 <= i < s.drop_last().len() implies s.drop_last()[i] != c by {
            assert(s[i] != c);
        }
        lemma_no_last(s.drop_last(), c);
    }
}

/// A number in decimal notation is read back, with or without a plus sign, unless it is too large.
pub proof fn numbers_are_read_back(n: nat, max: nat)
    ensures
        parse_unsigned_spec(decimal(n), max) == if n <= max {
            Some(n)
        } else {
            None
        },
        parse_unsigned_spec(seq!['+'] + decimal(n), max) == parse_unsigned_spec(decimal(n), max),
        !decimal(n).contains(':'),
        !decimal(n).contains('.'),
{
    crate::net_text::lemma_decimal(n);
    let d = decimal(n);
    assert(is_digit(d[0]));
    assert(without_plus(d) == d);
    assert(without_plus(seq!['+'] + d) =~= d);
    assert forall|i: int| 0 <= i < d.len() implies d[i] != ':' && d[i] != '.' by {
        assert(is_digit(d[i]));
    }
}

/// Nothing but digits is read as a number.
pub proof fn only_digits_are_numbers(s: Seq<char>, i: int, max: nat)
    requires
        0 <= i < s.len(),
        !('0' <= s[i] <= '9'),
        !(i == 0 && s[0] == '+'),
    ensures
        parse_unsigned_spec(s, max) is None,
        parse_unsigned_spec(Seq::empty(), max) is None,
{
    let d = without_plus(s);
    if s[0] == '+' {
        assert(d[i - 1] == s[i]);
        assert(!is_digit(d[i - 1]));
    } else {
        assert(!is_digit(d[i]));
    }
}

/// Two texts are the same but for their case exactly where each two letters are the same, or an upper
/// case letter and its lower case.
pub proof fn case_does_not_count(a: Seq<char>, b: Seq<char>)
    ensures
        same_but_case(a, b) <==> a.len() == b.len() && forall|i: int|
            0 <= i < a.len() ==> (#[trigger] a[i] == b[i] || is_upper_of(a[i], b[i])
                || is_upper_of(b[i], a[i])),
{
    if same_but_case(a, b) {
        assert forall|i: int| 0 <= i < a.len() implies (#[trigger] a[i] == b[i] || is_upper_of(
            a[i],
            b[i],
        ) || is_upper_of(b[i], a[i])) by {
            assert(ascii_lower(a[i]) == ascii_lower(b[i]));
        }
    }
    if a.len() == b.len() && forall|i: int|
        0 <= i < a.len() ==> (#[trigger] a[i] == b[i] || is_upper_of(a[i], b[i]) || is_upper_of(
            b[i],
            a[i],
        )) {
        assert forall|i: int| 0 <= i < a.len() implies ascii_lower(#[trigger] a[i]) == ascii_lower(
            b[i],
        ) by {
            assert(a[i] == b[i] || is_upper_of(a[i], b[i]) || is_upper_of(b[i], a[i]));
        }
    }
}

/// Whether `u` is an upper case ASCII letter, and `l` its lower case.
pub open spec fn is_upper_of(u: char, l: char) -> bool {
    'A' <= u <= 'Z' && l as u32 == u as u32 + 32
}

/// The text that is left of a text without the white space around it: it stands in the text, nothing
/// but white space is around it, and it neither begins nor ends with white space.
pub proof fn white_space_is_dropped(s: Seq<char>)
    ensures
        exists|from: int, to: int| #[trigger] is_core(s, from, to) && trimmed(s) == s.subrange(from, to),
{
    lemma_trim_start(s);
    let from = choose|from: int|
        0 <= from <= s.len() && trim_start(s) == #[trigger] s.subrange(from, s.len() as int)
            && (forall|i: int| 0 <= i < from ==> is_whitespace(s[i])) && (from < s.len() ==> !is_whitespace(
            s[from],
        ));
    let t = trim_start(s);
    lemma_trim_end(t);
    let n = choose|n: int|
        0 <= n <= t.len() && trim_end(t) == #[trigger] t.subrange(0, n) && (forall|i: int|
            n <= i < t.len() ==> is_whitespace(t[i])) && (n > 0 ==> !is_whitespace(t[n - 1]));
    assert(t.subrange(0, n) =~= s.subrange(from, from + n));
    assert forall|i: int| from + n <= i < s.len() implies is_whitespace(s[i]) by {
        assert(t[i - from] == s[i]);
    }
    if n > 0 {
        assert(t[n - 1] == s[from + n - 1]);
    }
    assert(is_core(s, from, from + n));
}

/// Whether only white space is outside of a part, and none at its ends.
pub open spec fn is_core(s: Seq<char>, from: int, to: int) -> bool {
    &&& 0 <= from <= to <= s.len()
    &&& forall|i: int| 0 <= i < from ==> is_whitespace(s[i])
    &&& forall|i: int| to <= i < s.len() ==> is_whitespace(s[i])
    &&& from < to ==> !is_whitespace(s[from]) && !is_whitespace(s[to - 1])
}

proof fn lemma_trim_start(s: Seq<char>)
    ensures
        exists|from: int|
            0 <= from <= s.len() && trim_start(s) == #[trigger] s.subrange(from, s.len() as int)
                && (forall|i: int| 0 <= i < from ==> is_whitespace(s[i])) && (from < s.len()
                ==> !is_whitespace(s[from])),
    decreases s.len(),
{
    if s.len() > 0 && is_whitespace(s[0]) {
        let rest = s.drop_first();
        lemma_trim_start(rest);
        let from = choose|from: int|
            0 <= from <= rest.len() && trim_start(rest) == #[trigger] rest.subrange(
                from,
                rest.len() as int,
            ) && (forall|i: int| 0 <= i < from ==> is_whitespace(rest[i])) && (from < rest.len()
                ==> !is_whitespace(rest[from]));
        assert(rest.subrange(from, rest.len() as int) =~= s.subrange(from + 1, s.len() as int));
        assert forall|i: int| 0 <= i < from + 1 implies is_whitespace(s[i]) by {
            if i > 0 {
                assert(rest[i - 1] == s[i]);
            }
        }
    } else {
        assert(s.subrange(0, s.len() as int) =~= s);
    }
}

pub(crate) proof fn lemma_trim_end(s: Seq<char>)
    ensures
        exists|n: int|
            0 <= n <= s.len() && trim_end(s) == #[trigger] s.subrange(0, n) && (forall|i: int|
                n <= i < s.len() ==> is_whitespace(s[i])) && (n > 0 ==> !is_whitespace(s[n - 1])),
    decreases s.len(),
{
    if s.len() > 0 && is_whitespace(s.last()) {
        let rest = s.drop_last();
        lemma_trim_end(rest);
        let n = choose|n: int|
            0 <= n <= rest.len() && trim_end(rest) == #[trigger] rest.subrange(0, n) && (forall|
                i: int,
            |
                n <= i < rest.len() ==> is_whitespace(rest[i])) && (n > 0 ==> !is_whitespace(
                rest[n - 1],
            ));
        assert(rest.subrange(0, n) =~= s.subrange(0, n));
        assert forall|i: int| n <= i < s.len() implies is_whitespace(s[i]) by {
            if i < rest.len() {
                assert(rest[i] == s[i]);
            }
        }
    } else {
        assert(s.subrange(0, s.len() as int) =~= s);
    }
}

/// A text with a line feed after each of its lines.
pub open spec fn ended_lines(lines: Seq<Seq<char>>) -> Seq<char>
    decreases lines.len(),
{
    if lines.len() == 0 {
        Seq::empty()
    } else {
        lines[0] + seq!['\n'] + ended_lines(lines.drop_first())
    }
}

/// Whether no line holds a line feed, or ends with a carriage return.
pub open spec fn are_lines(lines: Seq<Seq<char>>) -> bool {
    forall|i: int|
        0 <= i < lines.len() ==> !(#[trigger] lines[i]).contains('\n') && (lines[i].len() > 0
            ==> lines[i].last() != '\r')
}

/// A text is read as the lines that it was made of.
pub proof fn lines_are_read(lines: Seq<Seq<char>>)
    requires
        are_lines(lines),
    ensures
        lines_of(ended_lines(lines)) == lines,
    decreases lines.len(),
{
    let s = ended_lines(lines);
    if lines.len() > 0 {
        let rest = lines.drop_first();
        let n = lines[0].len() as int;
        assert(!lines[0].contains('\n'));
        assert forall|i: int| 0 <= i < n implies s[i] != '\n' by {
            assert(s[i] == lines[0][i]);
        }
        assert(s[n] == '\n');
        crate::rule_dispatcher::quanx::lemma_first_of(s, '\n', 0, n);
        assert(s.subrange(0, n) =~= lines[0]);
        assert(s.subrange(n + 1, s.len() as int) =~= ended_lines(rest));
        assert forall|i: int| 0 <= i < rest.len() implies !(#[trigger] rest[i]).contains('\n') && (
        rest[i].len() > 0 ==> rest[i].last() != '\r') by {
            assert(rest[i] == lines[i + 1]);
        }
        lines_are_read(rest);
        assert(seq![lines[0]] + rest =~= lines);
    } else {
        assert(lines =~= Seq::<Seq<char>>::empty());
    }
}

/// A line that ends with a carriage return and a line feed is read without either.
pub proof fn carriage_returns_are_dropped(line: Seq<char>, rest: Seq<char>)
    requires
        !line.contains('\n'),
    ensures
        lines_of(line + seq!['\r', '\n'] + rest) == seq![line] + lines_of(rest),
        line.len() > 0 ==> lines_of(line) == seq![line],
{
    let s = line + seq!['\r', '\n'] + rest;
    let n = line.len() as int + 1;
    assert forall|i: int| 0 <= i < n implies s[i] != '\n' by {
        if i < line.len() {
            assert(s[i] == line[i]);
        }
    }
    assert(s[n] == '\n');
    crate::rule_dispatcher::quanx::lemma_first_of(s, '\n', 0, n);
    assert(s.subrange(0, n) =~= line.push('\r'));
    assert(line.push('\r').drop_last() =~= line);
    assert(s.subrange(n + 1, s.len() as int) =~= rest);
    crate::rule_dispatcher::quanx::lemma_first_of(line, '\n', 0, line.len() as int);
}

/// What lines list is what each of them lists, in their order.
pub proof fn lines_are_listed_one_by_one(a: Seq<Seq<char>>, b: Seq<Seq<char>>)
    ensures
        listed(a + b) == listed(a) + listed(b),
    decreases a.len(),
{
    if a.len() > 0 {
        lines_are_listed_one_by_one(a.drop_first(), b);
        assert((a + b).drop_first() =~= a.drop_first() + b);
        assert(listed(a + b) =~= listed(a) + listed(b));
    } else {
        assert(a + b =~= b);
        assert(listed(a) + listed(b) =~= listed(b));
    }
}

/// A line lists the text on it; a blank line and a line that begins with `#` list nothing.
pub proof fn remarks_are_not_listed(line: Seq<char>)
    ensures
        line.len() > 0 && line[0] == '#' ==> listed(seq![line]).len() == 0,
        (forall|i: int| 0 <= i < line.len() ==> is_whitespace(line[i])) ==> listed(
            seq![line],
        ).len() == 0,
        line.len() > 0 && line[0] != '#' && !is_whitespace(line[0]) && !is_whitespace(line.last())
            ==> listed(seq![line]) == seq![line],
{
    reveal_with_fuel(listed, 2);
    assert(seq![line].drop_first() =~= Seq::<Seq<char>>::empty());
    if forall|i: int| 0 <= i < line.len() ==> is_whitespace(line[i]) {
        white_space_is_dropped(line);
        let (from, to) = choose|from: int, to: int| #[trigger]
            is_core(line, from, to) && trimmed(line) == line.subrange(from, to);
        if from < to {
            assert(!is_whitespace(line[from]));
        }
    }
    if line.len() > 0 && !is_whitespace(line[0]) && !is_whitespace(line.last()) {
        assert(trimmed(line) == line);
        assert(listed(seq![line]) =~= listed_line(line));
    }
}

/// White space is the space, the tab, the ends of lines and pages, and the other characters that Unicode
/// counts in; a visible ASCII character is none.
pub proof fn white_space_is_what_unicode_says(c: char)
    ensures
        is_whitespace(c) <==> seq![
            0x9u32,
            0xa,
            0xb,
            0xc,
            0xd,
            0x20,
            0x85,
            0xa0,
            0x1680,
            0x2000,
            0x2001,
            0x2002,
            0x2003,
            0x2004,
            0x2005,
            0x2006,
            0x2007,
            0x2008,
            0x2009,
            0x200a,
            0x2028,
            0x2029,
            0x202f,
            0x205f,
            0x3000,
        ].contains(c as u32),
        0x21 <= c as u32 <= 0x7e ==> !is_whitespace(c),
{
    let all = seq![
        0x9u32,
        0xa,
        0xb,
        0xc,
        0xd,
        0x20,
        0x85,
        0xa0,
        0x1680,
        0x2000,
        0x2001,
        0x2002,
        0x2003,
        0x2004,
        0x2005,
        0x2006,
        0x2007,
        0x2008,
        0x2009,
        0x200a,
        0x2028,
        0x2029,
        0x202f,
        0x205f,
        0x3000,
    ];
    let n = c as u32;
    if is_whitespace(c) {
        let i: int = if n <= 0xd {
            n - 0x9
        } else if n == 0x20 {
            5
        } else if n == 0x85 {
            6
        } else if n == 0xa0 {
            7
        } else if n == 0x1680 {
            8
        } else if n <= 0x200a {
            9 + (n - 0x2000)
        } else if n <= 0x2029 {
            20 + (n - 0x2028)
        } else if n == 0x202f {
            22
        } else if n == 0x205f {
            23
        } else {
            24
        };
        assert(all[i] == n);
    }
    if all.contains(n) {
        let i = choose|i: int| 0 <= i < all.len() && all[i] == n;
        assert(i <= 4 || i == 5 || i == 6 || i == 7 || i == 8 || (9 <= i <= 19) || i == 20 || i == 21 || i
            == 22 || i == 23 || i == 24);
    }
}

/// A number in text has its highest digit first: one digit below ten, and each further digit behind.
pub proof fn digits_stand_in_their_order(n: nat, d: nat)
    requires
        d < 10,
    ensures
        decimal(d) == seq![(0x30 + d) as char],
        n > 0 ==> decimal(n * 10 + d) == decimal(n).push((0x30 + d) as char),
{
    reveal_with_fuel(decimal, 2);
    assert(decimal(d) =~= seq![(0x30 + d) as char]);
    if n > 0 {
        assert((n * 10 + d) / 10 == n && (n * 10 + d) % 10 == d);
    }
}

} // verus!
