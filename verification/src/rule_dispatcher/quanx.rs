//! Rules in the format of Quantumult X: `type,content,action[,parameter]`.
use vstd::prelude::*;
use vstd::slice::slice_subrange;

use crate::domains::is_within;
use crate::net::IpAddr;
use crate::net::Ipv4Addr;
use crate::net::Ipv6Addr;
use crate::net_text::ip_of;
use crate::net_text::parse_ip;
use crate::rule_dispatcher::rules::geoip::rule_of;
use crate::rule_dispatcher::rules::geoip::RuleHandle;
use crate::service::suffix_rule;
use crate::tables::named;
use crate::text::chars_of;
use crate::text::contains;
use crate::text::find_from;
use crate::text::first_of;
use crate::text::has_substring;
use crate::text::has_suffix;
use crate::text::lemma_texts_push;
use crate::text::parse_unsigned;
use crate::text::parse_unsigned_spec;
use crate::text::same_text;
use crate::text::slice_of;
use crate::text::texts;

verus! {

/// What a rule looks at.
#[derive(Clone, Copy, PartialEq, Eq, Structural, Debug)]
pub enum RuleKind {
    /// A domain itself.
    Domain,
    /// A domain and all below it.
    DomainSuffix,
    /// A text within a domain.
    DomainKeyword,
    /// A network of IPv4 addresses.
    IpCidr,
    /// A network of IPv6 addresses.
    Ip6Cidr,
    /// A country.
    GeoIp,
    /// Nothing: it takes what no other rule takes.
    Final,
}

/// A rule.
#[derive(Debug)]
pub struct Rule {
    pub kind: RuleKind,
    pub content: String,
    pub action: String,
    pub no_resolve: bool,
}

#[verifier::ext_equal]
pub struct RuleView {
    pub kind: RuleKind,
    pub content: Seq<char>,
    pub action: Seq<char>,
    pub no_resolve: bool,
}

impl View for Rule {
    type V = RuleView;

    open spec fn view(&self) -> RuleView {
        RuleView {
            kind: self.kind,
            content: self.content@,
            action: self.action@,
            no_resolve: self.no_resolve,
        }
    }
}

/// The fields of a line, parted by commas, from `from` on.
pub open spec fn fields_from(s: Seq<char>, from: int) -> Seq<Seq<char>>
    decreases s.len() - from,
{
    if from < 0 || from > s.len() {
        Seq::empty()
    } else {
        let at = first_of(s, ',', from);
        if from <= at < s.len() {
            seq![s.subrange(from, at)] + fields_from(s, at + 1)
        } else {
            seq![s.subrange(from, s.len() as int)]
        }
    }
}

/// What the first field of a rule stands for.
pub open spec fn kind_of(t: Seq<char>) -> Option<RuleKind> {
    if t == "host"@ || t == "domain"@ {
        Some(RuleKind::Domain)
    } else if t == "host-suffix"@ || t == "domain-suffix"@ {
        Some(RuleKind::DomainSuffix)
    } else if t == "host-keyword"@ || t == "domain-keyword"@ {
        Some(RuleKind::DomainKeyword)
    } else if t == "ip-cidr"@ {
        Some(RuleKind::IpCidr)
    } else if t == "ip6-cidr"@ || t == "ip-cidr6"@ {
        Some(RuleKind::Ip6Cidr)
    } else if t == "geoip"@ {
        Some(RuleKind::GeoIp)
    } else if t == "final"@ {
        Some(RuleKind::Final)
    } else {
        None
    }
}

/// The rule that fields spell: a kind, what it looks at, an action, and parameters. The last kind
/// of rule looks at nothing.
pub open spec fn rule_of_fields(f: Seq<Seq<char>>) -> Option<RuleView> {
    if f.len() == 0 {
        None
    } else {
        match kind_of(f[0]) {
            Some(RuleKind::Final) => if f.len() >= 2 {
                Some(
                    RuleView {
                        kind: RuleKind::Final,
                        content: Seq::empty(),
                        action: f[1],
                        no_resolve: f.skip(2).contains("no-resolve"@),
                    },
                )
            } else {
                None
            },
            Some(kind) => if f.len() >= 3 {
                Some(
                    RuleView {
                        kind,
                        content: f[1],
                        action: f[2],
                        no_resolve: f.skip(3).contains("no-resolve"@),
                    },
                )
            } else {
                None
            },
            None => None,
        }
    }
}

fn read_kind(t: &str) -> (r: Option<RuleKind>)
    ensures
        r == kind_of(t@),
{
    if same_text(t, "host") || same_text(t, "domain") {
        Some(RuleKind::Domain)
    } else if same_text(t, "host-suffix") || same_text(t, "domain-suffix") {
        Some(RuleKind::DomainSuffix)
    } else if same_text(t, "host-keyword") || same_text(t, "domain-keyword") {
        Some(RuleKind::DomainKeyword)
    } else if same_text(t, "ip-cidr") {
        Some(RuleKind::IpCidr)
    } else if same_text(t, "ip6-cidr") || same_text(t, "ip-cidr6") {
        Some(RuleKind::Ip6Cidr)
    } else if same_text(t, "geoip") {
        Some(RuleKind::GeoIp)
    } else if same_text(t, "final") {
        Some(RuleKind::Final)
    } else {
        None
    }
}

fn split_fields(line: &str) -> (r: Vec<String>)
    ensures
        texts(r@) == fields_from(line@, 0),
{
    let s: Vec<char> = chars_of(line);
    let mut r: Vec<String> = Vec::new();
    let mut from: usize = 0;
    assert(texts(r@) + fields_from(s@, 0) =~= fields_from(s@, 0));
    loop
        invariant
            s@ == line@,
            from <= s@.len(),
            texts(r@) + fields_from(s@, from as int) == fields_from(line@, 0),
        decreases s@.len() - from,
    {
        let at: usize = find_from(s.as_slice(), ',', from);
        let field = slice_of(s.as_slice(), from, at);
        let ghost before = texts(r@);
        proof {
            lemma_texts_push(r@, field);
        }
        r.push(field);
        if at >= s.len() {
            assert(texts(r@) =~= before + seq![field@]);
            return r;
        }
        assert(texts(r@) + fields_from(s@, at + 1) =~= before + (seq![field@] + fields_from(
            s@,
            at + 1,
        )));
        from = at + 1;
    }
}

fn has_from(v: &Vec<String>, from: usize, t: &str) -> (r: bool)
    requires
        from <= v@.len(),
    ensures
        r == texts(v@).skip(from as int).contains(t@),
{
    let ghost rest = texts(v@).skip(from as int);
    let mut i: usize = from;
    while i < v.len()
        invariant
            from <= i <= v@.len(),
            rest == texts(v@).skip(from as int),
            forall|j: int| 0 <= j < i - from ==> #[trigger] rest[j] != t@,
        decreases v@.len() - i,
    {
        if same_text(v[i].as_str(), t) {
            assert(rest[i - from] == t@);
            return true;
        }
        assert(rest[i - from] != t@);
        i += 1;
    }
    false
}

/// Reads a rule. Nothing where the line spells none.
pub fn parse_rule(line: &str) -> (r: Option<Rule>)
    ensures
        match r {
            Some(rule) => rule_of_fields(fields_from(line@, 0)) == Some(rule@),
            None => rule_of_fields(fields_from(line@, 0)) is None,
        },
{
    let f = split_fields(line);
    let ghost views = texts(f@);
    assert(views.len() == f@.len());
    if f.len() == 0 {
        return None;
    }
    match read_kind(f[0].as_str()) {
        Some(RuleKind::Final) => {
            if f.len() < 2 {
                return None;
            }
            proof {
                reveal_strlit("");
                assert(""@ =~= Seq::<char>::empty());
            }
            Some(
                Rule {
                    kind: RuleKind::Final,
                    content: "".to_string(),
                    action: f[1].clone(),
                    no_resolve: has_from(&f, 2, "no-resolve"),
                },
            )
        },
        Some(kind) => {
            if f.len() < 3 {
                return None;
            }
            Some(
                Rule {
                    kind,
                    content: f[1].clone(),
                    action: f[2].clone(),
                    no_resolve: has_from(&f, 3, "no-resolve"),
                },
            )
        },
        None => None,
    }
}

/// Whether a rule takes a domain.
pub open spec fn takes_domain(rule: RuleView, domain: Seq<char>) -> bool {
    match rule.kind {
        RuleKind::Domain => domain == rule.content,
        RuleKind::DomainSuffix => is_within(domain, rule.content),
        RuleKind::DomainKeyword => contains(domain, rule.content),
        _ => false,
    }
}

fn matches_domain(rule: &Rule, domain: &str) -> (r: bool)
    ensures
        r == takes_domain(rule@, domain@),
{
    match rule.kind {
        RuleKind::Domain => same_text(domain, rule.content.as_str()),
        RuleKind::DomainSuffix => {
            let d: Vec<char> = chars_of(domain);
            let mut dotted: Vec<char> = Vec::new();
            dotted.push('.');
            let mut rest: Vec<char> = chars_of(rule.content.as_str());
            dotted.append(&mut rest);
            assert(dotted@ =~= seq!['.'] + rule.content@);
            same_text(domain, rule.content.as_str()) || has_suffix(d.as_slice(), dotted.as_slice())
        },
        RuleKind::DomainKeyword => has_substring(
            chars_of(domain).as_slice(),
            chars_of(rule.content.as_str()).as_slice(),
        ),
        _ => false,
    }
}

/// Whether an address lies in a network, given by one of its addresses and the length of its
/// prefix.
pub open spec fn in_network(ip: IpAddr, network: IpAddr, prefix_len: nat) -> bool {
    match (ip, network) {
        (IpAddr::V4(a), IpAddr::V4(n)) => prefix_len <= 32 && a.bits as nat
            / vstd::arithmetic::power2::pow2((32 - prefix_len) as nat) == n.bits as nat
            / vstd::arithmetic::power2::pow2((32 - prefix_len) as nat),
        (IpAddr::V6(a), IpAddr::V6(n)) => prefix_len <= 128 && a.bits as nat
            / vstd::arithmetic::power2::pow2((128 - prefix_len) as nat) == n.bits as nat
            / vstd::arithmetic::power2::pow2((128 - prefix_len) as nat),
        _ => false,
    }
}

/// A number without its last `n` bits.
fn without_low_bits(bits: u128, n: u8) -> (r: u128)
    requires
        n <= 128,
    ensures
        r == bits as nat / vstd::arithmetic::power2::pow2(n as nat),
{
    let mut r: u128 = bits;
    let mut i: u8 = 0;
    proof {
        vstd::arithmetic::power2::lemma2_to64();
        vstd::arithmetic::div_mod::lemma_div_basics(bits as int);
    }
    while i < n
        invariant
            i <= n <= 128,
            r == bits as nat / vstd::arithmetic::power2::pow2(i as nat),
        decreases n - i,
    {
        proof {
            let p = vstd::arithmetic::power2::pow2(i as nat);
            vstd::arithmetic::power2::lemma_pow2_pos(i as nat);
            vstd::arithmetic::power2::lemma_pow2_unfold((i + 1) as nat);
            vstd::arithmetic::div_mod::lemma_div_denominator(bits as int, p as int, 2);
            assert(p * 2 == 2 * p) by (nonlinear_arith);
        }
        r = r / 2;
        i += 1;
    }
    r
}

/// Whether an address lies in a network, given by one of its addresses and the length of its
/// prefix.
pub fn within_network(ip: IpAddr, network: IpAddr, prefix_len: u8) -> (r: bool)
    ensures
        r == in_network(ip, network, prefix_len as nat),
{
    match (ip, network) {
        (IpAddr::V4(a), IpAddr::V4(n)) => prefix_len <= 32 && without_low_bits(
            a.bits as u128,
            32 - prefix_len,
        ) == without_low_bits(n.bits as u128, 32 - prefix_len),
        (IpAddr::V6(a), IpAddr::V6(n)) => prefix_len <= 128 && without_low_bits(
            a.bits,
            128 - prefix_len,
        ) == without_low_bits(n.bits, 128 - prefix_len),
        _ => false,
    }
}

/// The length of a prefix that a text spells, of at most `max` bits.
pub open spec fn prefix_len_spec(text: Seq<char>, max: nat) -> Option<u8> {
    match parse_unsigned_spec(text, max) {
        Some(n) => Some(n as u8),
        None => None,
    }
}

/// The network that a text like `192.168.0.0/16` spells: an address, a slash, and the length of the
/// prefix.
pub open spec fn network_spec(content: Seq<char>) -> Option<(IpAddr, u8)> {
    let at = first_of(content, '/', 0);
    if 0 <= at < content.len() {
        let len = content.subrange(at + 1, content.len() as int);
        match ip_of(content.subrange(0, at)) {
            Some(ip) => match prefix_len_spec(len, if ip is V4 {
                32
            } else {
                128
            }) {
                Some(n) => Some((ip, n)),
                None => None,
            },
            None => None,
        }
    } else {
        None
    }
}

/// The network that a text like `192.168.0.0/16` spells, if it spells one.
pub fn parse_network(content: &str) -> (r: Option<(IpAddr, u8)>)
    ensures
        r == network_spec(content@),
{
    let s: Vec<char> = chars_of(content);
    let at: usize = find_from(s.as_slice(), '/', 0);
    if at >= s.len() {
        return None;
    }
    let ip = match parse_ip(slice_of(s.as_slice(), 0, at).as_str()) {
        Some(ip) => ip,
        None => {
            return None;
        },
    };
    let max: u64 = match ip {
        IpAddr::V4(_) => 32,
        IpAddr::V6(_) => 128,
    };
    match parse_unsigned(slice_subrange(s.as_slice(), at + 1, s.len()), max) {
        Some(n) => Some((ip, n as u8)),
        None => None,
    }
}

/// A rule and what is known of it: the number of its action, and the network that it speaks of.
pub struct LoadedRule {
    pub rule: Rule,
    pub action: RuleHandle,
    /// An address of the network and the length of its prefix, where the content spells one.
    pub network: Option<(IpAddr, u8)>,
}

#[verifier::ext_equal]
pub struct LoadedRuleView {
    pub rule: RuleView,
    pub action: RuleHandle,
    pub network: Option<(IpAddr, u8)>,
}

impl View for LoadedRule {
    type V = LoadedRuleView;

    open spec fn view(&self) -> LoadedRuleView {
        LoadedRuleView { rule: self.rule@, action: self.action, network: self.network }
    }
}

pub open spec fn loaded_views(s: Seq<LoadedRule>) -> Seq<LoadedRuleView> {
    Seq::new(s.len(), |i: int| s[i]@)
}

/// Whether a rule takes an address, which lies in the country with the code `country`, where it is
/// known. A rule on a network takes addresses of its own family only.
pub open spec fn takes_ip(rule: LoadedRuleView, ip: IpAddr, country: Option<Seq<char>>) -> bool {
    match rule.rule.kind {
        RuleKind::IpCidr => match (ip, rule.network) {
            (IpAddr::V4(_), Some((IpAddr::V4(n), len))) => in_network(ip, IpAddr::V4(n), len as nat),
            _ => false,
        },
        RuleKind::Ip6Cidr => match (ip, rule.network) {
            (IpAddr::V6(_), Some((IpAddr::V6(n), len))) => in_network(ip, IpAddr::V6(n), len as nat),
            _ => false,
        },
        RuleKind::GeoIp => country == Some(rule.rule.content),
        _ => false,
    }
}

pub open spec fn text_view(t: Option<&str>) -> Option<Seq<char>> {
    match t {
        Some(s) => Some(s@),
        None => None,
    }
}

fn matches_ip(rule: &LoadedRule, ip: IpAddr, country: Option<&str>) -> (r: bool)
    ensures
        r == takes_ip(rule@, ip, text_view(country)),
{
    match rule.rule.kind {
        RuleKind::IpCidr => match (ip, rule.network) {
            (IpAddr::V4(_), Some((n, len))) => within_network(ip, n, len),
            _ => false,
        },
        RuleKind::Ip6Cidr => match (ip, rule.network) {
            (IpAddr::V6(_), Some((n, len))) => within_network(ip, n, len),
            _ => false,
        },
        RuleKind::GeoIp => match country {
            Some(c) => same_text(c, rule.rule.content.as_str()),
            None => false,
        },
        _ => false,
    }
}

/// What is looked at: a domain, an address of each family, and the countries that the addresses lie
/// in, as far as they are known.
#[derive(Clone, Copy)]
pub struct Target<'a> {
    pub domain: Option<&'a str>,
    pub ip_v4: Option<Ipv4Addr>,
    pub ip_v6: Option<Ipv6Addr>,
    pub country_v4: Option<&'a str>,
    pub country_v6: Option<&'a str>,
}

#[verifier::ext_equal]
pub struct TargetView {
    pub domain: Option<Seq<char>>,
    pub ip_v4: Option<Ipv4Addr>,
    pub ip_v6: Option<Ipv6Addr>,
    pub country_v4: Option<Seq<char>>,
    pub country_v6: Option<Seq<char>>,
}

impl<'a> View for Target<'a> {
    type V = TargetView;

    open spec fn view(&self) -> TargetView {
        TargetView {
            domain: text_view(self.domain),
            ip_v4: self.ip_v4,
            ip_v6: self.ip_v6,
            country_v4: text_view(self.country_v4),
            country_v6: text_view(self.country_v6),
        }
    }
}

/// Whether a rule takes one of the addresses of a target.
pub open spec fn takes_address(rule: LoadedRuleView, target: TargetView) -> bool {
    ||| (target.ip_v4 matches Some(ip) && takes_ip(rule, IpAddr::V4(ip), target.country_v4))
    ||| (target.ip_v6 matches Some(ip) && takes_ip(rule, IpAddr::V6(ip), target.country_v6))
}

fn matches_address(rule: &LoadedRule, target: Target<'_>) -> (r: bool)
    ensures
        r == takes_address(rule@, target@),
{
    if let Some(ip) = target.ip_v4 {
        if matches_ip(rule, IpAddr::V4(ip), target.country_v4) {
            return true;
        }
    }
    match target.ip_v6 {
        Some(ip) => matches_ip(rule, IpAddr::V6(ip), target.country_v6),
        None => false,
    }
}

/// The first rule that takes a domain, from `from` on.
pub open spec fn first_for_domain(
    rules: Seq<LoadedRuleView>,
    domain: Seq<char>,
    from: int,
) -> Option<int>
    decreases rules.len() - from,
{
    if from < 0 || from >= rules.len() {
        None
    } else if takes_domain(rules[from].rule, domain) {
        Some(from)
    } else {
        first_for_domain(rules, domain, from + 1)
    }
}

/// The first rule that takes one of the addresses of a target, from `from` on.
pub open spec fn first_for_ip(
    rules: Seq<LoadedRuleView>,
    target: TargetView,
    from: int,
) -> Option<int>
    decreases rules.len() - from,
{
    if from < 0 || from >= rules.len() {
        None
    } else if takes_address(rules[from], target) {
        Some(from)
    } else {
        first_for_ip(rules, target, from + 1)
    }
}

/// The first rule that takes what no other takes, from `from` on.
pub open spec fn first_final(rules: Seq<LoadedRuleView>, from: int) -> Option<int>
    decreases rules.len() - from,
{
    if from < 0 || from >= rules.len() {
        None
    } else if rules[from].rule.kind == RuleKind::Final {
        Some(from)
    } else {
        first_final(rules, from + 1)
    }
}

/// Whether a rule needs the addresses of a domain: it looks at addresses, and is not marked with
/// `no-resolve`.
pub open spec fn needs_addresses(rule: RuleView) -> bool {
    !rule.no_resolve && (rule.kind == RuleKind::IpCidr || rule.kind == RuleKind::Ip6Cidr
        || rule.kind == RuleKind::GeoIp)
}

fn resolves(rule: &Rule) -> (r: bool)
    ensures
        r == needs_addresses(rule@),
{
    !rule.no_resolve && (rule.kind == RuleKind::IpCidr || rule.kind == RuleKind::Ip6Cidr
        || rule.kind == RuleKind::GeoIp)
}

/// The place of the first rule that needs the addresses of a domain.
pub open spec fn first_resolving(rules: Seq<LoadedRuleView>) -> Option<u32>
    decreases rules.len(),
{
    if rules.len() == 0 {
        None
    } else if first_resolving(rules.drop_last()) is Some {
        first_resolving(rules.drop_last())
    } else if needs_addresses(rules.last().rule) {
        Some((rules.len() - 1) as u32)
    } else {
        None
    }
}

/// A list of rules.
pub struct RuleSet {
    pub rules: Vec<LoadedRule>,
    /// The number of the first rule that needs the addresses of a domain. Rules for domains are
    /// numbered before it.
    pub first_resolving_rule_id: Option<u32>,
}

/// The rules in the first `n` lines. A line that is no rule, or names an action that there is not,
/// is left out.
pub open spec fn rules_upto(
    lines: Seq<Seq<char>>,
    actions: Seq<(Seq<char>, u32)>,
    n: nat,
) -> Seq<LoadedRuleView>
    decreases n,
{
    if n == 0 {
        Seq::empty()
    } else {
        let before = rules_upto(lines, actions, (n - 1) as nat);
        match rule_of_fields(fields_from(lines[n - 1], 0)) {
            Some(rule) => match rule_of(actions, rule.action) {
                Some(action) => before.push(
                    LoadedRuleView { rule, action, network: network_spec(rule.content) },
                ),
                None => before,
            },
            None => before,
        }
    }
}

/// The number of the action with a name.
fn action_named(actions: &Vec<(String, u32)>, name: &str) -> (r: Option<RuleHandle>)
    ensures
        r == rule_of(named(actions@), name@),
{
    let ghost all = named(actions@);
    let mut i: usize = 0;
    assert(all.skip(0) =~= all);
    while i < actions.len()
        invariant
            i <= actions@.len(),
            all == named(actions@),
            rule_of(all, name@) == rule_of(all.skip(i as int), name@),
        decreases actions@.len() - i,
    {
        assert(all.skip(i as int).drop_first() =~= all.skip(i + 1));
        if same_text(actions[i].0.as_str(), name) {
            return Some(RuleHandle(actions[i].1));
        }
        i += 1;
    }
    None
}

/// The rule that takes a target: rules for domains come before those for addresses, and those
/// before the last resort.
pub open spec fn rule_for(rules: Seq<LoadedRuleView>, target: TargetView) -> Option<int> {
    let by_domain = match target.domain {
        Some(d) => first_for_domain(rules, d, 0),
        None => None,
    };
    let by_ip = first_for_ip(rules, target, 0);
    if by_domain is Some {
        by_domain
    } else if by_ip is Some {
        by_ip
    } else {
        first_final(rules, 0)
    }
}

/// The action of the rule that takes a target.
pub open spec fn matched_spec(rules: Seq<LoadedRuleView>, target: TargetView) -> Option<RuleHandle> {
    match rule_for(rules, target) {
        Some(i) => Some(rules[i].action),
        None => None,
    }
}

impl RuleSet {
    pub open spec fn views(&self) -> Seq<LoadedRuleView> {
        loaded_views(self.rules@)
    }

    /// No rules.
    pub fn new() -> (r: RuleSet)
        ensures
            r.views() == Seq::<LoadedRuleView>::empty(),
            r.first_resolving_rule_id is None,
    {
        let r = RuleSet { rules: Vec::new(), first_resolving_rule_id: None };
        assert(r.views() =~= Seq::<LoadedRuleView>::empty());
        r
    }

    /// Reads rules. `actions` holds the names of the actions with their numbers.
    pub fn load_quanx_filter(lines: &Vec<String>, actions: &Vec<(String, u32)>) -> (r: RuleSet)
        requires
            lines@.len() <= u32::MAX,
        ensures
            r.views() == rules_upto(texts(lines@), named(actions@), lines@.len()),
            r.first_resolving_rule_id == first_resolving(r.views()),
    {
        let mut rules: Vec<LoadedRule> = Vec::new();
        let mut first: Option<u32> = None;
        let mut i: usize = 0;
        assert(loaded_views(rules@) =~= Seq::<LoadedRuleView>::empty());
        while i < lines.len()
            invariant
                i <= lines@.len() <= u32::MAX,
                rules@.len() <= i,
                loaded_views(rules@) == rules_upto(texts(lines@), named(actions@), i as nat),
                first == first_resolving(loaded_views(rules@)),
            decreases lines@.len() - i,
        {
            assert(texts(lines@)[i as int] == lines@[i as int]@);
            if let Some(rule) = parse_rule(lines[i].as_str()) {
                if let Some(action) = action_named(actions, rule.action.as_str()) {
                    let ghost before = rules@;
                    if first.is_none() && resolves(&rule) {
                        first = Some(rules.len() as u32);
                    }
                    let network = parse_network(rule.content.as_str());
                    let loaded = LoadedRule { rule, action, network };
                    rules.push(loaded);
                    assert(loaded_views(rules@) =~= loaded_views(before).push(loaded@));
                    assert(loaded_views(rules@).drop_last() =~= loaded_views(before));
                }
            }
            i += 1;
        }
        RuleSet { rules, first_resolving_rule_id: first }
    }

    /// Numbers the rules that need addresses from `id` on, if there are any.
    pub fn number_resolving(&mut self, id: u32)
        ensures
            final(self).rules == old(self).rules,
            final(self).first_resolving_rule_id == (match old(self).first_resolving_rule_id {
                Some(_) => Some(id),
                None => None,
            }),
    {
        if self.first_resolving_rule_id.is_some() {
            self.first_resolving_rule_id = Some(id);
        }
    }

    fn find_domain(&self, domain: &str) -> (r: Option<usize>)
        ensures
            match r {
                Some(i) => first_for_domain(self.views(), domain@, 0) == Some(i as int) && i
                    < self.rules@.len(),
                None => first_for_domain(self.views(), domain@, 0) is None,
            },
    {
        let mut i: usize = 0;
        while i < self.rules.len()
            invariant
                i <= self.rules@.len(),
                first_for_domain(self.views(), domain@, 0) == first_for_domain(
                    self.views(),
                    domain@,
                    i as int,
                ),
            decreases self.rules@.len() - i,
        {
            assert(self.views()[i as int].rule == self.rules@[i as int].rule@);
            if matches_domain(&self.rules[i].rule, domain) {
                return Some(i);
            }
            i += 1;
        }
        None
    }

    fn find_ip(&self, target: Target<'_>) -> (r: Option<usize>)
        ensures
            match r {
                Some(i) => first_for_ip(self.views(), target@, 0) == Some(i as int) && i
                    < self.rules@.len(),
                None => first_for_ip(self.views(), target@, 0) is None,
            },
    {
        let mut i: usize = 0;
        while i < self.rules.len()
            invariant
                i <= self.rules@.len(),
                first_for_ip(self.views(), target@, 0) == first_for_ip(
                    self.views(),
                    target@,
                    i as int,
                ),
            decreases self.rules@.len() - i,
        {
            assert(self.views()[i as int] == self.rules@[i as int]@);
            if matches_address(&self.rules[i], target) {
                return Some(i);
            }
            i += 1;
        }
        None
    }

    fn find_final(&self) -> (r: Option<usize>)
        ensures
            match r {
                Some(i) => first_final(self.views(), 0) == Some(i as int) && i < self.rules@.len(),
                None => first_final(self.views(), 0) is None,
            },
    {
        let mut i: usize = 0;
        while i < self.rules.len()
            invariant
                i <= self.rules@.len(),
                first_final(self.views(), 0) == first_final(self.views(), i as int),
            decreases self.rules@.len() - i,
        {
            assert(self.views()[i as int].rule.kind == self.rules@[i as int].rule.kind);
            if self.rules[i].rule.kind == RuleKind::Final {
                return Some(i);
            }
            i += 1;
        }
        None
    }

    /// The action of the rule that takes a target; nothing where none does.
    pub fn matched(&self, target: Target<'_>) -> (r: Option<RuleHandle>)
        ensures
            r == matched_spec(self.views(), target@),
    {
        if let Some(d) = target.domain {
            if let Some(i) = self.find_domain(d) {
                return Some(self.rules[i].action);
            }
        }
        if let Some(i) = self.find_ip(target) {
            return Some(self.rules[i].action);
        }
        match self.find_final() {
            Some(i) => Some(self.rules[i].action),
            None => None,
        }
    }

    /// Whether the addresses of a domain are needed: no rule for domains takes it, and there are
    /// rules that need them.
    pub open spec fn resolves_domain(&self, domain: Seq<char>) -> bool {
        self.first_resolving_rule_id is Some && first_for_domain(self.views(), domain, 0) is None
    }

    /// Whether the addresses of a domain are needed: no rule for domains takes it, and there are
    /// rules that need them.
    pub fn should_resolve(&self, domain: &str) -> (r: bool)
        ensures
            r == self.resolves_domain(domain@),
    {
        self.first_resolving_rule_id.is_some() && self.find_domain(domain).is_none()
    }
}

pub(crate) proof fn lemma_first_for_domain(rules: Seq<LoadedRuleView>, domain: Seq<char>, from: int, i: int)
    requires
        0 <= from <= i < rules.len(),
        takes_domain(rules[i].rule, domain),
    ensures
        first_for_domain(rules, domain, from) matches Some(j) && from <= j <= i && takes_domain(
            rules[j].rule,
            domain,
        ),
    decreases i - from,
{
    if !takes_domain(rules[from].rule, domain) {
        lemma_first_for_domain(rules, domain, from + 1, i);
    }
}

pub(crate) proof fn lemma_none_for_domain(rules: Seq<LoadedRuleView>, domain: Seq<char>, from: int)
    requires
        0 <= from <= rules.len(),
        forall|i: int| from <= i < rules.len() ==> !takes_domain((#[trigger] rules[i]).rule, domain),
    ensures
        first_for_domain(rules, domain, from) is None,
    decreases rules.len() - from,
{
    if from < rules.len() {
        lemma_none_for_domain(rules, domain, from + 1);
    }
}

pub(crate) proof fn lemma_first_for_ip(
    rules: Seq<LoadedRuleView>,
    target: TargetView,
    from: int,
    to: int,
)
    requires
        0 <= from <= to <= rules.len(),
        forall|i: int| from <= i < to ==> !takes_address(#[trigger] rules[i], target),
    ensures
        first_for_ip(rules, target, from) == first_for_ip(rules, target, to),
    decreases to - from,
{
    if from < to {
        lemma_first_for_ip(rules, target, from + 1, to);
    }
}

pub(crate) proof fn lemma_no_final(rules: Seq<LoadedRuleView>, from: int)
    requires
        0 <= from <= rules.len(),
        forall|i: int| from <= i < rules.len() ==> (#[trigger] rules[i]).rule.kind != RuleKind::Final,
    ensures
        first_final(rules, from) is None,
    decreases rules.len() - from,
{
    if from < rules.len() {
        lemma_no_final(rules, from + 1);
    }
}

/// Rules for domains come first: where one of them takes the domain of a target, a rule for domains
/// is the one that counts, whatever the address is.
pub proof fn domain_rules_come_first(rules: Seq<LoadedRuleView>, target: TargetView, i: int)
    requires
        0 <= i < rules.len(),
        target.domain matches Some(d) && takes_domain(rules[i].rule, d),
    ensures
        rule_for(rules, target) matches Some(j) && target.domain matches Some(d) && takes_domain(
            rules[j].rule,
            d,
        ),
{
    lemma_first_for_domain(rules, target.domain->Some_0, 0, i);
}

/// A rule for a suffix takes the domain itself and every domain below it.
pub proof fn suffix_rules_take_subdomains(rule: RuleView, label: Seq<char>)
    requires
        rule.kind == RuleKind::DomainSuffix,
    ensures
        takes_domain(rule, rule.content),
        takes_domain(rule, label + seq!['.'] + rule.content),
{
    crate::domains::subdomains_are_within(rule.content, label);
}

pub(crate) proof fn lemma_first_of(s: Seq<char>, c: char, from: int, p: int)
    requires
        0 <= from <= p <= s.len(),
        forall|i: int| from <= i < p ==> s[i] != c,
        p < s.len() ==> s[p] == c,
    ensures
        first_of(s, c, from) == p,
    decreases p - from,
{
    if from < p {
        lemma_first_of(s, c, from + 1, p);
    }
}

/// A line with the three fields of a rule without parameters.
pub open spec fn line_of(kind: Seq<char>, content: Seq<char>, action: Seq<char>) -> Seq<char> {
    kind + seq![','] + content + seq![','] + action
}

proof fn lemma_three_fields(kind: Seq<char>, content: Seq<char>, action: Seq<char>)
    requires
        !kind.contains(','),
        !content.contains(','),
        !action.contains(','),
    ensures
        fields_from(line_of(kind, content, action), 0) == seq![kind, content, action],
{
    let s = line_of(kind, content, action);
    let a = kind.len() as int;
    let b = a + 1 + content.len();
    assert forall|i: int| 0 <= i < a implies s[i] != ',' by {
        assert(s[i] == kind[i]);
    }
    assert forall|i: int| a + 1 <= i < b implies s[i] != ',' by {
        assert(s[i] == content[i - a - 1]);
    }
    assert forall|i: int| b + 1 <= i < s.len() implies s[i] != ',' by {
        assert(s[i] == action[i - b - 1]);
    }
    assert(s[a] == ',' && s[b] == ',');
    lemma_first_of(s, ',', 0, a);
    lemma_first_of(s, ',', a + 1, b);
    lemma_first_of(s, ',', b + 1, s.len() as int);
    assert(s.subrange(0, a) =~= kind);
    assert(s.subrange(a + 1, b) =~= content);
    assert(s.subrange(b + 1, s.len() as int) =~= action);
    reveal_with_fuel(fields_from, 4);
    assert(fields_from(s, 0) =~= seq![kind, content, action]);
}

/// The rules that are made for domains are read back as what they were made for.
pub proof fn made_rules_are_read_back(domain: Seq<char>, action: Seq<char>)
    requires
        !domain.contains(','),
        !action.contains(','),
    ensures
        rule_of_fields(fields_from(suffix_rule(domain, action), 0)) == Some(
            RuleView { kind: RuleKind::DomainSuffix, content: domain, action, no_resolve: false },
        ),
{
    reveal_strlit("domain-suffix,");
    reveal_strlit("domain-suffix");
    reveal_strlit(",");
    reveal_strlit("host");
    reveal_strlit("domain");
    let kind = "domain-suffix"@;
    assert(suffix_rule(domain, action) =~= line_of(kind, domain, action));
    lemma_three_fields(kind, domain, action);
    let f = seq![kind, domain, action];
    assert("host"@.len() != kind.len());
    assert("domain"@.len() != kind.len());
    assert(f.skip(3).len() == 0);
}

/// A target that is only an address.
pub open spec fn ip_target(ip: IpAddr, country: Option<Seq<char>>) -> TargetView {
    TargetView {
        domain: None,
        ip_v4: match ip {
            IpAddr::V4(a) => Some(a),
            IpAddr::V6(_) => None,
        },
        ip_v6: match ip {
            IpAddr::V4(_) => None,
            IpAddr::V6(a) => Some(a),
        },
        country_v4: country,
        country_v6: country,
    }
}

/// Whether an address is meant by the type and the content of a rule: `ip-cidr` means the IPv4
/// addresses of a network, `ip6-cidr` and `ip-cidr6` the IPv6 addresses of one, and `geoip` the
/// addresses of a country.
pub open spec fn is_meant(
    kind: Seq<char>,
    content: Seq<char>,
    ip: IpAddr,
    country: Option<Seq<char>>,
) -> bool {
    let inside = network_spec(content) matches Some((n, len)) && in_network(ip, n, len as nat);
    ||| kind == "ip-cidr"@ && ip is V4 && inside
    ||| (kind == "ip6-cidr"@ || kind == "ip-cidr6"@) && ip is V6 && inside
    ||| kind == "geoip"@ && country == Some(content)
}

proof fn lemma_kinds_differ()
    ensures
        kind_of("ip-cidr"@) == Some(RuleKind::IpCidr),
        kind_of("ip6-cidr"@) == Some(RuleKind::Ip6Cidr),
        kind_of("ip-cidr6"@) == Some(RuleKind::Ip6Cidr),
        kind_of("geoip"@) == Some(RuleKind::GeoIp),
        !"ip-cidr"@.contains(',') && !"ip6-cidr"@.contains(',') && !"ip-cidr6"@.contains(',')
            && !"geoip"@.contains(','),
        "ip-cidr"@ != "ip6-cidr"@,
        "ip-cidr"@ != "ip-cidr6"@,
        "geoip"@ != "ip-cidr"@,
        "geoip"@ != "ip6-cidr"@,
        "geoip"@ != "ip-cidr6"@,
{
    reveal_strlit("host");
    reveal_strlit("domain");
    reveal_strlit("host-suffix");
    reveal_strlit("domain-suffix");
    reveal_strlit("host-keyword");
    reveal_strlit("domain-keyword");
    reveal_strlit("ip-cidr");
    reveal_strlit("ip6-cidr");
    reveal_strlit("ip-cidr6");
    reveal_strlit("geoip");
    assert("ip-cidr"@.len() == 7 && "ip6-cidr"@.len() == 8 && "ip-cidr6"@.len() == 8
        && "geoip"@.len() == 5);
    assert("host"@.len() == 4 && "domain"@.len() == 6 && "host-suffix"@.len() == 11);
    assert("domain-suffix"@.len() == 13 && "host-keyword"@.len() == 12);
    assert("domain-keyword"@.len() == 14);
}

/// The rules that are made for countries are read back as what they were made for.
pub proof fn country_rules_are_read_back(country: Seq<char>, action: Seq<char>)
    requires
        !country.contains(','),
        !action.contains(','),
    ensures
        rule_of_fields(fields_from(line_of("geoip"@, country, action), 0)) == Some(
            RuleView { kind: RuleKind::GeoIp, content: country, action, no_resolve: false },
        ),
{
    lemma_kinds_differ();
    lemma_three_fields("geoip"@, country, action);
    let f = seq!["geoip"@, country, action];
    assert(f.skip(3).len() == 0);
}

/// A single rule for addresses takes exactly the addresses that its type and its content mean.
pub proof fn one_rule_takes_what_it_means(
    kind: Seq<char>,
    content: Seq<char>,
    action: Seq<char>,
    actions: Seq<(Seq<char>, u32)>,
    ip: IpAddr,
    country: Option<Seq<char>>,
)
    requires
        kind == "ip-cidr"@ || kind == "ip6-cidr"@ || kind == "ip-cidr6"@ || kind == "geoip"@,
        !content.contains(','),
        !action.contains(','),
        rule_of(actions, action) is Some,
    ensures
        matched_spec(
            rules_upto(seq![line_of(kind, content, action)], actions, 1),
            ip_target(ip, country),
        ) == if is_meant(kind, content, ip, country) {
            rule_of(actions, action)
        } else {
            None
        },
{
    lemma_kinds_differ();
    lemma_three_fields(kind, content, action);
    let f = seq![kind, content, action];
    assert(f.skip(3).len() == 0);
    reveal_with_fuel(rules_upto, 2);
    let rules = rules_upto(seq![line_of(kind, content, action)], actions, 1);
    assert(rules.len() == 1);
    assert(rules[0].rule.content == content);
    assert(rules[0].network == network_spec(content));
    reveal_with_fuel(first_for_ip, 2);
    reveal_with_fuel(first_final, 2);
    assert(takes_address(rules[0], ip_target(ip, country)) == is_meant(kind, content, ip, country));
}

/// The addresses of domains are needed exactly where a rule for addresses is not marked with
/// `no-resolve`.
pub proof fn marked_rules_need_no_addresses(rules: Seq<LoadedRuleView>)
    ensures
        first_resolving(rules) is Some <==> exists|i: int|
            0 <= i < rules.len() && needs_addresses((#[trigger] rules[i]).rule),
    decreases rules.len(),
{
    if rules.len() > 0 {
        let before = rules.drop_last();
        marked_rules_need_no_addresses(before);
        if first_resolving(before) is Some {
            let i = choose|i: int|
                0 <= i < before.len() && needs_addresses((#[trigger] before[i]).rule);
            assert(needs_addresses(rules[i].rule));
        } else if needs_addresses(rules.last().rule) {
            assert(needs_addresses(rules[rules.len() - 1].rule));
        } else {
            assert forall|i: int| 0 <= i < rules.len() implies !needs_addresses(
                (#[trigger] rules[i]).rule,
            ) by {
                if i < before.len() {
                    assert(before[i] == rules[i]);
                }
            }
        }
    }
}

/// A rule that was made for a domain and an action that there is takes the domain, and all below
/// it, once it is read.
pub proof fn made_rules_take_their_domain(
    domain: Seq<char>,
    action: Seq<char>,
    actions: Seq<(Seq<char>, u32)>,
    label: Seq<char>,
)
    requires
        !domain.contains(','),
        !action.contains(','),
        rule_of(actions, action) is Some,
    ensures
        ({
            let r = rules_upto(seq![suffix_rule(domain, action)], actions, 1);
            &&& r.len() == 1
            &&& Some(r[0].action) == rule_of(actions, action)
            &&& takes_domain(r[0].rule, domain)
            &&& takes_domain(r[0].rule, label + seq!['.'] + domain)
        }),
{
    made_rules_are_read_back(domain, action);
    reveal_with_fuel(rules_upto, 2);
    let r = rules_upto(seq![suffix_rule(domain, action)], actions, 1);
    suffix_rules_take_subdomains(r[0].rule, label);
}

} // verus!
