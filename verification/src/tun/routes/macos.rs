//! Routes on macOS: the commands that set them, and what the system says of them.
use vstd::prelude::*;
use vstd::slice::slice_subrange;

use crate::deps::dns_proto::parse_a_data;
use crate::net_text::ipv4_of;
use crate::text::char_is_whitespace;
use crate::text::chars_of;
use crate::text::contains;
use crate::text::decimal;
use crate::text::find_from;
use crate::text::first_of;
use crate::text::has_substring;
use crate::text::is_whitespace;
use crate::text::lines_of;
use crate::text::push_decimal;
use crate::text::slice_of;
use crate::text::string_of;
use crate::text::texts;
use crate::text::trim;
use crate::text::trim_end;
use crate::text::trimmed;
use crate::text::without_cr;

verus! {

/// How a TUN device is set up, and who gets its traffic.
#[derive(Debug)]
pub struct Tunconfig<S, D, F> {
    pub enabled: bool,
    pub tun_name: String,
    pub routes: Option<Vec<String>>,
    pub mtu: Option<u16>,
    pub netmask: Option<String>,
    pub gateway: String,
    pub stream_handler: Option<S>,
    pub datagram_handler: Option<D>,
    pub dns_hijack: bool,
    pub fakeip: Option<F>,
}

impl<S, D, F> Tunconfig<S, D, F> {
    pub fn new(
        tun_name: String,
        routes: Option<Vec<String>>,
        mtu: Option<u16>,
        netmask: Option<String>,
        gateway: String,
    ) -> (r: Self)
        ensures
            r == (Tunconfig::<S, D, F> {
                enabled: true,
                tun_name,
                routes,
                mtu,
                netmask,
                gateway,
                stream_handler: None,
                datagram_handler: None,
                dns_hijack: true,
                fakeip: None,
            }),
    {
        Tunconfig {
            enabled: true,
            tun_name,
            routes,
            mtu,
            netmask,
            gateway,
            stream_handler: None,
            datagram_handler: None,
            dns_hijack: true,
            fakeip: None,
        }
    }

    pub fn with_stream_handler(self, handler: S) -> (r: Self)
        ensures
            r == (Tunconfig { stream_handler: Some(handler), ..self }),
    {
        Tunconfig { stream_handler: Some(handler), ..self }
    }

    pub fn with_datagram_handler(self, handler: D) -> (r: Self)
        ensures
            r == (Tunconfig { datagram_handler: Some(handler), ..self }),
    {
        Tunconfig { datagram_handler: Some(handler), ..self }
    }

    pub fn with_dns_hijack(self, hijack: bool) -> (r: Self)
        ensures
            r == (Tunconfig { dns_hijack: hijack, ..self }),
    {
        Tunconfig { dns_hijack: hijack, ..self }
    }

    pub fn with_fakeip(self, fakeip: F) -> (r: Self)
        ensures
            r == (Tunconfig { fakeip: Some(fakeip), ..self }),
    {
        Tunconfig { fakeip: Some(fakeip), ..self }
    }
}

/// A command for the system, and what is said where it fails.
pub struct RouteCommand {
    pub program: String,
    pub args: Vec<String>,
    pub failure: String,
}

#[verifier::ext_equal]
pub struct RouteCommandView {
    pub program: Seq<char>,
    pub args: Seq<Seq<char>>,
    pub failure: Seq<char>,
}

impl View for RouteCommand {
    type V = RouteCommandView;

    open spec fn view(&self) -> RouteCommandView {
        RouteCommandView { program: self.program@, args: texts(self.args@), failure: self.failure@ }
    }
}

/// What became of a command.
pub fn new_io_error(command: &RouteCommand, success: bool) -> (r: Result<(), String>)
    ensures
        match r {
            Ok(()) => success,
            Err(e) => !success && e@ == command.failure@,
        },
{
    if success {
        Ok(())
    } else {
        Err(command.failure.clone())
    }
}

/// The two parts of a text with exactly one slash.
pub open spec fn cut_at_slash(s: Seq<char>) -> Option<(Seq<char>, Seq<char>)> {
    let at = first_of(s, '/', 0);
    if at < s.len() && first_of(s, '/', at + 1) >= s.len() {
        Some((s.subrange(0, at), s.subrange(at + 1, s.len() as int)))
    } else {
        None
    }
}

/// The command that gives an interface an IPv6 address.
pub open spec fn ipv6_address_command(via: Seq<char>, addr: Seq<char>, prefix: Seq<char>, failure: Seq<char>) -> RouteCommandView {
    RouteCommandView {
        program: "ifconfig"@,
        args: seq![via, "inet6"@, addr, "prefixlen"@, prefix, "alias"@],
        failure,
    }
}

/// The command that sends traffic for `dest` through `via`. An IPv6 address with a prefix length is
/// given to the interface instead.
pub open spec fn route_command(via: Seq<char>, dest: Seq<char>) -> RouteCommandView {
    if contains(dest, ":"@) {
        match cut_at_slash(dest) {
            Some((addr, prefix)) => ipv6_address_command(
                via,
                addr,
                prefix,
                "add ipv6 address failed"@,
            ),
            None => RouteCommandView {
                program: "route"@,
                args: seq!["add"@, "-inet6"@, dest, "-interface"@, via],
                failure: "add ipv6 route failed"@,
            },
        }
    } else {
        RouteCommandView {
            program: "route"@,
            args: seq!["add"@, "-net"@, dest, "-interface"@, via],
            failure: "add route failed"@,
        }
    }
}

fn ipv6_command(via: &str, addr: &str, prefix: &str, failure: &str) -> (r: RouteCommand)
    ensures
        r@ == ipv6_address_command(via@, addr@, prefix@, failure@),
{
    let args = vec![
        via.to_string(),
        "inet6".to_string(),
        addr.to_string(),
        "prefixlen".to_string(),
        prefix.to_string(),
        "alias".to_string(),
    ];
    let r = RouteCommand { program: "ifconfig".to_string(), args, failure: failure.to_string() };
    assert(r@ =~= ipv6_address_command(via@, addr@, prefix@, failure@));
    r
}

/// The command that sends traffic for `dest` through the interface `via`.
pub fn add_route(via: &str, dest: &str) -> (r: RouteCommand)
    ensures
        r@ == route_command(via@, dest@),
{
    let d: Vec<char> = chars_of(dest);
    if has_substring(d.as_slice(), chars_of(":").as_slice()) {
        let at: usize = find_from(d.as_slice(), '/', 0);
        if at < d.len() {
            let second: usize = find_from(d.as_slice(), '/', at + 1);
            if second >= d.len() {
                let addr = slice_of(d.as_slice(), 0, at);
                let prefix = slice_of(d.as_slice(), at + 1, d.len());
                return ipv6_command(
                    via,
                    addr.as_str(),
                    prefix.as_str(),
                    "add ipv6 address failed",
                );
            }
        }
        let args = vec![
            "add".to_string(),
            "-inet6".to_string(),
            dest.to_string(),
            "-interface".to_string(),
            via.to_string(),
        ];
        let r = RouteCommand {
            program: "route".to_string(),
            args,
            failure: "add ipv6 route failed".to_string(),
        };
        assert(r@ =~= route_command(via@, dest@));
        r
    } else {
        let args = vec![
            "add".to_string(),
            "-net".to_string(),
            dest.to_string(),
            "-interface".to_string(),
            via.to_string(),
        ];
        let r = RouteCommand {
            program: "route".to_string(),
            args,
            failure: "add route failed".to_string(),
        };
        assert(r@ =~= route_command(via@, dest@));
        r
    }
}

/// The command that gives an interface an IPv6 address.
pub fn configure_ipv6(interface: &str, ipv6_addr: &str, prefix_len: u8) -> (r: RouteCommand)
    ensures
        r@ == ipv6_address_command(
            interface@,
            ipv6_addr@,
            decimal(prefix_len as nat),
            "configure ipv6 address failed"@,
        ),
{
    let mut prefix: Vec<char> = Vec::new();
    push_decimal(&mut prefix, prefix_len as u64);
    assert(prefix@ =~= decimal(prefix_len as nat));
    let prefix = string_of(prefix.as_slice());
    ipv6_command(interface, ipv6_addr, prefix.as_str(), "configure ipv6 address failed")
}

/// The command that asks for the default route.
pub fn ask_default_gateway() -> (r: RouteCommand)
    ensures
        r@ == (RouteCommandView {
            program: "route"@,
            args: seq!["-n"@, "get"@, "default"@],
            failure: ""@,
        }),
{
    let args = vec!["-n".to_string(), "get".to_string(), "default".to_string()];
    let r = RouteCommand { program: "route".to_string(), args, failure: "".to_string() };
    assert(texts(r.args@) =~= seq!["-n"@, "get"@, "default"@]);
    r
}

/// Where the last word of `s` begins, if `s` does not end in white space.
pub open spec fn word_start(s: Seq<char>) -> int
    decreases s.len(),
{
    if s.len() == 0 {
        0
    } else if is_whitespace(s.last()) {
        s.len() as int
    } else {
        word_start(s.drop_last())
    }
}

/// The last word of a line.
pub open spec fn last_word(s: Seq<char>) -> Seq<char> {
    let t = trim_end(s);
    t.subrange(word_start(t), t.len() as int)
}


/// The last word of the first line that speaks of a gateway.
pub open spec fn gateway_word(lines: Seq<Seq<char>>) -> Option<Seq<char>>
    decreases lines.len(),
{
    if lines.len() == 0 {
        None
    } else if contains(trimmed(lines[0]), "gateway:"@) {
        Some(last_word(lines[0]))
    } else {
        gateway_word(lines.drop_first())
    }
}

fn last_word_of(s: &[char]) -> (r: String)
    ensures
        r@ == last_word(s@),
{
    let mut to: usize = s.len();
    assert(s@.subrange(0, to as int) =~= s@);
    while to > 0 && char_is_whitespace(s[to - 1])
        invariant
            to <= s@.len(),
            trim_end(s@) == trim_end(s@.subrange(0, to as int)),
        decreases to,
    {
        assert(s@.subrange(0, to as int).drop_last() =~= s@.subrange(0, to - 1));
        to -= 1;
    }
    let ghost t = s@.subrange(0, to as int);
    assert(trim_end(s@) == t);
    let mut from: usize = to;
    assert(t.subrange(0, from as int) =~= t);
    while from > 0 && !char_is_whitespace(s[from - 1])
        invariant
            from <= to <= s@.len(),
            t == s@.subrange(0, to as int),
            word_start(t) == word_start(t.subrange(0, from as int)),
        decreases from,
    {
        assert(t.subrange(0, from as int).drop_last() =~= t.subrange(0, from - 1));
        from -= 1;
    }
    assert(t.subrange(from as int, to as int) =~= s@.subrange(from as int, to as int));
    slice_of(s, from, to)
}

/// The last word of the first line that speaks of a gateway, if it spells an IPv4 address.
pub open spec fn gateway_spec(lines: Seq<Seq<char>>) -> Option<Seq<char>> {
    match gateway_word(lines) {
        Some(word) if ipv4_of(word) is Some => Some(word),
        _ => None,
    }
}

/// What the system says the default gateway is, in text. `success` says whether the command for it
/// succeeded, and `output` is what it printed.
pub fn get_default_gateway(success: bool, output: &str) -> (r: Option<String>)
    ensures
        match r {
            Some(t) => success && gateway_spec(lines_of(output@)) == Some(t@),
            None => !success || gateway_spec(lines_of(output@)) is None,
        },
{
    if !success {
        return None;
    }
    let all: Vec<char> = chars_of(output);
    let key: Vec<char> = chars_of("gateway:");
    let mut at: usize = 0;
    assert(all@.subrange(0, all@.len() as int) =~= all@);
    while at < all.len()
        invariant
            success,
            at <= all@.len(),
            all@ == output@,
            key@ == "gateway:"@,
            gateway_word(lines_of(output@)) == gateway_word(
                lines_of(all@.subrange(at as int, all@.len() as int)),
            ),
        decreases all@.len() - at,
    {
        let rest = slice_subrange(all.as_slice(), at, all.len());
        let end: usize = find_from(rest, '\n', 0);
        let cut: usize = if end < rest.len() && end > 0 && rest[end - 1] == '\r' {
            end - 1
        } else {
            end
        };
        let line = slice_subrange(rest, 0, cut);
        let ghost lines = lines_of(rest@);
        proof {
            if end < rest@.len() {
                assert(line@ =~= without_cr(rest@.subrange(0, end as int)));
                assert(lines.drop_first() =~= lines_of(
                    rest@.subrange(end + 1, rest@.len() as int),
                ));
            } else {
                assert(line@ =~= rest@);
                assert(lines.drop_first() =~= Seq::<Seq<char>>::empty());
            }
            assert(lines[0] == line@);
        }
        if has_substring(trim(line), key.as_slice()) {
            let word = last_word_of(line);
            return if parse_a_data(word.as_str()).is_some() {
                Some(word)
            } else {
                None
            };
        }
        if end < rest.len() {
            assert(rest@.subrange(end + 1, rest@.len() as int) =~= all@.subrange(
                at + end + 1,
                all@.len() as int,
            ));
            at = at + end + 1;
        } else {
            at = all.len();
            assert(all@.subrange(at as int, all@.len() as int) =~= Seq::<char>::empty());
        }
    }
    assert(all@.subrange(at as int, all@.len() as int) =~= Seq::<char>::empty());
    None
}

/// The interface that traffic leaves by.
pub fn get_outbound_interface() -> (r: Option<String>)
    ensures
        r matches Some(name) && name@ == "en0"@,
{
    Some("en0".to_string())
}

/// The command that adds or deletes the default route at a gateway.
pub open spec fn default_route_command(verb: Seq<char>, gateway: Seq<char>, failure: Seq<char>) -> RouteCommandView {
    RouteCommandView {
        program: "route"@,
        args: seq![verb, "-ifscope"@, "en0"@, "0/0"@, gateway],
        failure,
    }
}

fn default_route(verb: &str, gateway: &str, failure: &str) -> (r: RouteCommand)
    ensures
        r@ == default_route_command(verb@, gateway@, failure@),
{
    let name = match get_outbound_interface() {
        Some(n) => n,
        None => "en0".to_string(),
    };
    let args = vec![
        verb.to_string(),
        "-ifscope".to_string(),
        name,
        "0/0".to_string(),
        gateway.to_string(),
    ];
    let r = RouteCommand { program: "route".to_string(), args, failure: failure.to_string() };
    assert(r@ =~= default_route_command(verb@, gateway@, failure@));
    r
}

/// The command that adds the default route, or why there is none. `gateway` is the default gateway
/// in text, where there is one.
pub fn maybe_add_default_route(gateway: Option<&str>) -> (r: Result<RouteCommand, String>)
    ensures
        match (gateway, r) {
            (Some(g), Ok(c)) => c@ == default_route_command(
                "add"@,
                g@,
                "add default route failed"@,
            ),
            (None, Err(e)) => e@ == "cant set default route, default gateway not found"@,
            _ => false,
        },
{
    match gateway {
        Some(g) => Ok(default_route("add", g, "add default route failed")),
        None => Err("cant set default route, default gateway not found".to_string()),
    }
}

/// The command that deletes the default route, or why there is none. `gateway` is the default
/// gateway in text, where there is one.
pub fn maybe_routes_clean_up(gateway: Option<&str>) -> (r: Result<RouteCommand, String>)
    ensures
        match (gateway, r) {
            (Some(g), Ok(c)) => c@ == default_route_command(
                "delete"@,
                g@,
                "delete default route failed"@,
            ),
            (None, Err(e)) => e@ == "cant delete default route, default gateway not found"@,
            _ => false,
        },
{
    match gateway {
        Some(g) => Ok(default_route("delete", g, "delete default route failed")),
        None => Err("cant delete default route, default gateway not found".to_string()),
    }
}

// ---- Laws ----
/// A route to an IPv4 network leads through the interface; an IPv6 address with a prefix length is given
/// to the interface; any other IPv6 destination has a route of its own.
pub proof fn routes_lead_through_the_interface(
    via: &str,
    dest: &str,
    r: RouteCommand,
    addr: Seq<char>,
    prefix: Seq<char>,
)
    requires
        call_ensures(add_route, (via, dest), r),
    ensures
        !dest@.contains(':') ==> r.program@ == "route"@ && r.args@.len() == 5 && r.args@[0]@
            == "add"@ && r.args@[1]@ == "-net"@ && r.args@[2]@ == dest@ && r.args@[3]@
            == "-interface"@ && r.args@[4]@ == via@,
        dest@.contains(':') && !dest@.contains('/') ==> r.program@ == "route"@ && r.args@.len() == 5
            && r.args@[0]@ == "add"@ && r.args@[1]@ == "-inet6"@ && r.args@[2]@ == dest@
            && r.args@[4]@ == via@,
        dest@ == addr + seq!['/'] + prefix && addr.contains(':') && !addr.contains('/')
            && !prefix.contains('/') ==> r.program@ == "ifconfig"@ && r.args@.len() == 6
            && r.args@[0]@ == via@ && r.args@[1]@ == "inet6"@ && r.args@[2]@ == addr && r.args@[4]@
            == prefix && r.args@[5]@ == "alias"@,
{
    reveal_strlit(":");
    let t = texts(r.args@);
    assert(t.len() == r.args@.len());
    assert forall|i: int| 0 <= i < t.len() implies #[trigger] t[i] == r.args@[i]@ by {
    }
    lemma_one_char(dest@, ':');
    assert(":"@ =~= seq![':']);
    if !dest@.contains(':') || !dest@.contains('/') {
        if !dest@.contains('/') {
            lemma_no_first(dest@, '/', 0);
        }
        assert(t[0] == r.args@[0]@ && t[1] == r.args@[1]@ && t[2] == r.args@[2]@ && t[3]
            == r.args@[3]@ && t[4] == r.args@[4]@);
    }
    if dest@ == addr + seq!['/'] + prefix && addr.contains(':') && !addr.contains('/')
        && !prefix.contains('/') {
        let at = addr.len() as int;
        let i = choose|i: int| 0 <= i < addr.len() && addr[i] == ':';
        assert(dest@[i] == ':');
        assert forall|k: int| 0 <= k < at implies dest@[k] != '/' by {
            assert(dest@[k] == addr[k]);
        }
        assert(dest@[at] == '/');
        lemma_first_is(dest@, '/', 0, at);
        assert forall|k: int| at + 1 <= k < dest@.len() implies dest@[k] != '/' by {
            assert(dest@[k] == prefix[k - at - 1]);
        }
        lemma_no_first_from(dest@, '/', at + 1);
        assert(dest@.subrange(0, at) =~= addr);
        assert(dest@.subrange(at + 1, dest@.len() as int) =~= prefix);
        assert(t[0] == r.args@[0]@ && t[1] == r.args@[1]@ && t[2] == r.args@[2]@ && t[4]
            == r.args@[4]@ && t[5] == r.args@[5]@);
    }
}

proof fn lemma_one_char(s: Seq<char>, c: char)
    ensures
        contains(s, seq![c]) <==> s.contains(c),
{
    if contains(s, seq![c]) {
        let at = choose|at: int| crate::text::stands_at(s, at, seq![c]);
        assert(s.subrange(at, at + 1)[0] == s[at]);
    }
    if s.contains(c) {
        let at = choose|at: int| 0 <= at < s.len() && s[at] == c;
        assert(s.subrange(at, at + 1) =~= seq![c]);
        assert(crate::text::stands_at(s, at, seq![c]));
    }
}

proof fn lemma_no_first(s: Seq<char>, c: char, from: int)
    requires
        0 <= from,
        !s.contains(c),
    ensures
        first_of(s, c, from) >= s.len(),
    decreases s.len() - from,
{
    if from < s.len() {
        lemma_no_first(s, c, from + 1);
    }
}

proof fn lemma_no_first_from(s: Seq<char>, c: char, from: int)
    requires
        0 <= from,
        forall|k: int| from <= k < s.len() ==> s[k] != c,
    ensures
        first_of(s, c, from) >= s.len(),
    decreases s.len() - from,
{
    if from < s.len() {
        lemma_no_first_from(s, c, from + 1);
    }
}

proof fn lemma_first_is(s: Seq<char>, c: char, from: int, at: int)
    requires
        0 <= from <= at < s.len(),
        s[at] == c,
        forall|k: int| from <= k < at ==> s[k] != c,
    ensures
        first_of(s, c, from) == at,
    decreases at - from,
{
    if from < at {
        lemma_first_is(s, c, from + 1, at);
    }
}

/// The gateway is the last word of the first line that speaks of one, where that is an IPv4 address;
/// later lines do not count, nor does white space behind the word.
pub proof fn gateway_is_the_last_word(
    before: Seq<Seq<char>>,
    front: Seq<char>,
    space: char,
    word: Seq<char>,
    behind: Seq<char>,
    after: Seq<Seq<char>>,
)
    requires
        forall|i: int| 0 <= i < before.len() ==> !contains(trimmed(#[trigger] before[i]), "gateway:"@),
        is_whitespace(space),
        word.len() > 0,
        forall|i: int| 0 <= i < word.len() ==> !is_whitespace(#[trigger] word[i]),
        forall|i: int| 0 <= i < behind.len() ==> is_whitespace(#[trigger] behind[i]),
        contains(trimmed(front + seq![space] + word + behind), "gateway:"@),
    ensures
        gateway_spec(before + seq![front + seq![space] + word + behind] + after) == (if ipv4_of(
            word,
        ) is Some {
            Some(word)
        } else {
            None
        }),
        gateway_spec(before) is None,
    decreases before.len(),
{
    let line = front + seq![space] + word + behind;
    let all = before + seq![line] + after;
    if before.len() > 0 {
        assert(all[0] == before[0]);
        assert(!contains(trimmed(before[0]), "gateway:"@));
        assert(all.drop_first() =~= before.drop_first() + seq![line] + after);
        assert forall|i: int| 0 <= i < before.drop_first().len() implies !contains(
            trimmed(#[trigger] before.drop_first()[i]),
            "gateway:"@,
        ) by {
            assert(before.drop_first()[i] == before[i + 1]);
        }
        gateway_is_the_last_word(before.drop_first(), front, space, word, behind, after);
    } else {
        assert(all[0] == line);
        crate::text::lemma_trim_end(line);
        let n = choose|n: int|
            0 <= n <= line.len() && trim_end(line) == #[trigger] line.subrange(0, n) && (forall|
                i: int,
            |
                n <= i < line.len() ==> is_whitespace(line[i])) && (n > 0 ==> !is_whitespace(
                line[n - 1],
            ));
        let end = front.len() + 1 + word.len() as int;
        assert(line[end - 1] == word[word.len() - 1]);
        assert forall|i: int| end <= i < line.len() implies is_whitespace(line[i]) by {
            assert(line[i] == behind[i - end]);
        }
        assert(n == end);
        let t = trim_end(line);
        assert(t =~= front + seq![space] + word);
        lemma_word_start(front + seq![space], word);
        assert(t.subrange(word_start(t), t.len() as int) =~= word);
    }
}

proof fn lemma_word_start(front: Seq<char>, word: Seq<char>)
    requires
        front.len() > 0,
        is_whitespace(front.last()),
        forall|i: int| 0 <= i < word.len() ==> !is_whitespace(#[trigger] word[i]),
    ensures
        word_start(front + word) == front.len(),
    decreases word.len(),
{
    let s = front + word;
    if word.len() == 0 {
        assert(s.last() == front.last());
    } else {
        assert(s.last() == word.last());
        assert(s.drop_last() =~= front + word.drop_last());
        lemma_word_start(front, word.drop_last());
    }
}

/// The gateway that is found is used as it is: the default route is added there and deleted there. Where
/// there is none, both say so. Nothing is believed of a command that failed.
pub proof fn default_routes_lead_to_the_gateway(
    output: &str,
    failed: Option<String>,
    gateway: Option<&str>,
    added: Result<RouteCommand, String>,
    deleted: Result<RouteCommand, String>,
)
    requires
        call_ensures(get_default_gateway, (false, output), failed),
        call_ensures(maybe_add_default_route, (gateway,), added),
        call_ensures(maybe_routes_clean_up, (gateway,), deleted),
    ensures
        failed is None,
        added is Ok <==> gateway is Some,
        deleted is Ok <==> gateway is Some,
        added matches Ok(c) ==> c.program@ == "route"@ && c.args@.len() == 5 && c.args@[0]@ == "add"@
            && c.args@[4]@ == gateway->Some_0@,
        deleted matches Ok(c) ==> c.program@ == "route"@ && c.args@.len() == 5 && c.args@[0]@
            == "delete"@ && c.args@[4]@ == gateway->Some_0@,
{
    if let Ok(c) = added {
        let t = texts(c.args@);
        assert(t.len() == 5);
        assert(t[0] == c.args@[0]@ && t[4] == c.args@[4]@);
    }
    if let Ok(c) = deleted {
        let t = texts(c.args@);
        assert(t.len() == 5);
        assert(t[0] == c.args@[0]@ && t[4] == c.args@[4]@);
    }
}

/// What is added to a configuration is there, and nothing else changes; a new one is on, and answers
/// queries itself.
pub proof fn configurations_are_built(
    name: String,
    routes: Option<Vec<String>>,
    mtu: Option<u16>,
    netmask: Option<String>,
    gateway: String,
    c: Tunconfig<u8, u8, u8>,
    stream: u8,
    with_stream: Tunconfig<u8, u8, u8>,
    datagram: u8,
    with_both: Tunconfig<u8, u8, u8>,
    hijack: bool,
    with_hijack: Tunconfig<u8, u8, u8>,
    fakeip: u8,
    whole: Tunconfig<u8, u8, u8>,
)
    requires
        call_ensures(Tunconfig::<u8, u8, u8>::new, (name, routes, mtu, netmask, gateway), c),
        call_ensures(Tunconfig::<u8, u8, u8>::with_stream_handler, (c, stream), with_stream),
        call_ensures(
            Tunconfig::<u8, u8, u8>::with_datagram_handler,
            (with_stream, datagram),
            with_both,
        ),
        call_ensures(Tunconfig::<u8, u8, u8>::with_dns_hijack, (with_both, hijack), with_hijack),
        call_ensures(Tunconfig::<u8, u8, u8>::with_fakeip, (with_hijack, fakeip), whole),
    ensures
        c.enabled && c.dns_hijack && c.stream_handler is None && c.datagram_handler is None
            && c.fakeip is None,
        whole.enabled && whole.tun_name == name && whole.routes == routes && whole.mtu == mtu
            && whole.netmask == netmask && whole.gateway == gateway,
        whole.stream_handler == Some(stream) && whole.datagram_handler == Some(datagram)
            && whole.dns_hijack == hijack && whole.fakeip == Some(fakeip),
{
}

/// A command that failed is told by its own words. An IPv6 address is given to the interface with the
/// length of its prefix.
pub proof fn failures_are_told(
    c: &RouteCommand,
    success: bool,
    r: Result<(), String>,
    interface: &str,
    address: &str,
    prefix_len: u8,
    given: RouteCommand,
    asked: RouteCommand,
)
    requires
        call_ensures(new_io_error, (c, success), r),
        call_ensures(configure_ipv6, (interface, address, prefix_len), given),
        call_ensures(ask_default_gateway, (), asked),
    ensures
        r is Ok <==> success,
        r matches Err(e) ==> e@ == c.failure@,
        given.program@ == "ifconfig"@ && given.args@.len() == 6 && given.args@[0]@ == interface@
            && given.args@[2]@ == address@ && given.args@[4]@ == decimal(prefix_len as nat),
        asked.program@ == "route"@ && asked.args@.len() == 3 && asked.args@[1]@ == "get"@
            && asked.args@[2]@ == "default"@,
{
    let t = texts(given.args@);
    assert(t.len() == 6);
    assert(t[0] == given.args@[0]@ && t[2] == given.args@[2]@ && t[4] == given.args@[4]@);
    let u = texts(asked.args@);
    assert(u.len() == 3);
    assert(u[1] == asked.args@[1]@ && u[2] == asked.args@[2]@);
}

} // verus!
