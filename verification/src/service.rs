//! What the servers of the program are made of: how they split flows between a direct way and a
//! proxy, and the rules that they start with.
use vstd::prelude::*;

use crate::config::AppConfig;
use crate::deps::small_list::action_items;
use crate::deps::base64_text::base64_bytes;
use crate::deps::base64_text::base64_decode;
use crate::domains::check_domain;
use crate::domains::direct_domains;
use crate::domains::is_listed;
use crate::domains::is_within;
use crate::domains::load_direct_domains;
use crate::domains::load_proxy_domains;
use crate::domains::lowered;
use crate::domains::DomainSet;
use crate::flow::error::FlowError;
use crate::flow::FlowContext;
use crate::flow::HostName;
use crate::rule_dispatcher::dispatcher::rule_for_query;
use crate::rule_dispatcher::dispatcher::target_of;
use crate::rule_dispatcher::dispatcher::MatchQueryView;
use crate::rule_dispatcher::dispatcher::RuleDispatcher;
use crate::rule_dispatcher::quanx::country_rules_are_read_back;
use crate::rule_dispatcher::quanx::fields_from;
use crate::rule_dispatcher::quanx::first_for_domain;
use crate::rule_dispatcher::quanx::first_for_ip;
use crate::rule_dispatcher::quanx::first_resolving;
use crate::rule_dispatcher::quanx::lemma_first_for_domain;
use crate::rule_dispatcher::quanx::lemma_first_for_ip;
use crate::rule_dispatcher::quanx::lemma_no_final;
use crate::rule_dispatcher::quanx::lemma_none_for_domain;
use crate::rule_dispatcher::quanx::line_of;
use crate::rule_dispatcher::quanx::made_rules_are_read_back;
use crate::rule_dispatcher::quanx::network_spec;
use crate::rule_dispatcher::quanx::rule_of_fields;
use crate::rule_dispatcher::quanx::rules_upto;
use crate::rule_dispatcher::quanx::takes_address;
use crate::rule_dispatcher::quanx::takes_domain;
use crate::rule_dispatcher::quanx::LoadedRuleView;
use crate::rule_dispatcher::quanx::RuleKind;
use crate::rule_dispatcher::quanx::RuleSet;
use crate::rule_dispatcher::quanx::RuleView;
use crate::rule_dispatcher::quanx::TargetView;
use crate::rule_dispatcher::rules::geoip::rule_of;
use crate::rule_dispatcher::rules::geoip::RuleHandle;
use crate::tables::named;
use crate::text::chars_of;
use crate::text::has_prefix;
use crate::text::lemma_texts_push;
use crate::text::lines_of;
use crate::text::listed;
use crate::text::listed_lines;
use crate::text::starts_with;
use crate::text::string_of;
use crate::text::texts;

verus! {

/// What is told of a running server.
#[derive(Debug)]
pub struct ServerStatus {
    pub server_address: String,
    pub connections: usize,
    pub uplink_bytes: u64,
    pub downlink_bytes: u64,
}

/// Opens flows to listed domains directly and all others through the proxy. Each part is `None`
/// once it is gone.
pub struct SmartOutboundFactory<D, S> {
    pub direct_factory: Option<D>,
    pub ss_factory: Option<S>,
    pub direct_domains: Option<DomainSet>,
}

/// The factory that opens a flow.
pub enum Chosen<'a, D, S> {
    Direct(&'a D),
    Proxy(&'a S),
}

impl<D, S> SmartOutboundFactory<D, S> {
    pub fn new(
        direct_factory: Option<D>,
        ss_factory: Option<S>,
        direct_domains: Option<DomainSet>,
    ) -> (r: Self)
        ensures
            r.direct_factory == direct_factory,
            r.ss_factory == ss_factory,
            r.direct_domains == direct_domains,
    {
        SmartOutboundFactory { direct_factory, ss_factory, direct_domains }
    }

    pub open spec fn goes_direct(&self, domain: Seq<char>) -> bool {
        match self.direct_domains {
            Some(domains) => is_listed(domain, domains.list()),
            None => false,
        }
    }

    /// Whether a domain is reached directly.
    pub fn should_direct(&self, domain: &str) -> (r: bool)
        ensures
            r == self.goes_direct(domain@),
    {
        match &self.direct_domains {
            Some(domains) => check_domain(domain, domains),
            None => false,
        }
    }

    /// The factory that opens the outbound of a flow. A flow whose factory is gone has no
    /// outbound.
    pub fn create_outbound(&self, context: &FlowContext) -> (r: Result<
        Chosen<'_, D, S>,
        FlowError,
    >)
        ensures
            match context.remote_peer.host {
                HostName::DomainName(domain) if self.goes_direct(domain@) => match (
                    self.direct_factory,
                    r,
                ) {
                    (Some(f), Ok(Chosen::Direct(d))) => *d == f,
                    (None, Err(e)) => e == FlowError::NoOutbound,
                    _ => false,
                },
                _ => match (self.ss_factory, r) {
                    (Some(f), Ok(Chosen::Proxy(s))) => *s == f,
                    (None, Err(e)) => e == FlowError::NoOutbound,
                    _ => false,
                },
            },
    {
        if let HostName::DomainName(domain) = &context.remote_peer.host {
            if self.should_direct(domain.as_str()) {
                return match &self.direct_factory {
                    Some(f) => Ok(Chosen::Direct(f)),
                    None => Err(FlowError::NoOutbound),
                };
            }
        }
        match &self.ss_factory {
            Some(f) => Ok(Chosen::Proxy(f)),
            None => Err(FlowError::NoOutbound),
        }
    }
}

/// The Shadowsocks key that a configuration spells in Base64: 16 bytes.
pub fn ss_key(text: &str) -> (r: Option<Vec<u8>>)
    ensures
        match r {
            Some(key) => base64_bytes(text@) == Some(key@) && key@.len() == 16,
            None => match base64_bytes(text@) {
                Some(b) => b.len() != 16,
                None => true,
            },
        },
{
    match base64_decode(text) {
        Some(key) => {
            if key.len() == 16 {
                Some(key)
            } else {
                None
            }
        },
        None => None,
    }
}

/// The rules that a file lists; none where it cannot be read.
pub fn load_quanx_rules_from_file(content: Option<&str>) -> (r: Vec<String>)
    ensures
        texts(r@) == (match content {
            Some(c) => listed(lines_of(c@)),
            None => Seq::empty(),
        }),
{
    match content {
        Some(c) => listed_lines(c),
        None => {
            let r: Vec<String> = Vec::new();
            assert(texts(r@) =~= Seq::<Seq<char>>::empty());
            r
        },
    }
}

/// The rule that sends a domain and all below it one way.
pub open spec fn suffix_rule(domain: Seq<char>, action: Seq<char>) -> Seq<char> {
    "domain-suffix,"@ + domain + ","@ + action
}

/// One rule for each domain.
pub open spec fn suffix_rules(domains: Seq<Seq<char>>, action: Seq<char>) -> Seq<Seq<char>> {
    Seq::new(domains.len(), |i: int| suffix_rule(domains[i], action))
}

/// The domains that go directly where nothing is configured.
pub open spec fn builtin_direct() -> Seq<Seq<char>> {
    seq![
        "acg.tv"@,
        "acgvideo.com"@,
        "b23.tv"@,
        "bigfun.cn"@,
        "bigfunapp.cn"@,
        "biliapi.com"@,
        "biliapi.net"@,
        "bilibili.com"@,
        "bilibili.tv"@,
        "biligame.com"@,
        "biligame.net"@,
        "bilivideo.cn"@,
        "bilivideo.com"@,
        "hdslb.com"@,
        "im9.com"@,
        "smtcdns.net"@,
        "baidu.com"@,
        "baidubcr.com"@,
        "baidupcs.com"@,
        "baidustatic.com"@,
        "bcebos.com"@,
        "bdimg.com"@,
        "bdstatic.com"@,
        "bdurl.net"@,
        "hao123.com"@,
        "hao123img.com"@,
        "jomodns.com"@,
        "yunjiasu-cdn.net"@,
    ]
}

/// The domains that go through the proxy where nothing is configured.
pub open spec fn builtin_proxy() -> Seq<Seq<char>> {
    seq![
        "google.com"@,
        "google-analytics.com"@,
        "googleapis.com"@,
        "gstatic.com"@,
        "doubleclick.net"@,
        "www.google-analytics.com"@,
        "www.googleapis.com"@,
        "www.gstatic.com"@,
        "www.doubleclick.net"@,
        "beacons.gcp.gvt2.com"@,
    ]
}

/// The domains that go directly where nothing is configured.
pub fn default_direct_domains() -> (r: Vec<String>)
    ensures
        texts(r@) == builtin_direct(),
{
    let r = vec![
        "acg.tv".to_string(),
        "acgvideo.com".to_string(),
        "b23.tv".to_string(),
        "bigfun.cn".to_string(),
        "bigfunapp.cn".to_string(),
        "biliapi.com".to_string(),
        "biliapi.net".to_string(),
        "bilibili.com".to_string(),
        "bilibili.tv".to_string(),
        "biligame.com".to_string(),
        "biligame.net".to_string(),
        "bilivideo.cn".to_string(),
        "bilivideo.com".to_string(),
        "hdslb.com".to_string(),
        "im9.com".to_string(),
        "smtcdns.net".to_string(),
        "baidu.com".to_string(),
        "baidubcr.com".to_string(),
        "baidupcs.com".to_string(),
        "baidustatic.com".to_string(),
        "bcebos.com".to_string(),
        "bdimg.com".to_string(),
        "bdstatic.com".to_string(),
        "bdurl.net".to_string(),
        "hao123.com".to_string(),
        "hao123img.com".to_string(),
        "jomodns.com".to_string(),
        "yunjiasu-cdn.net".to_string(),
    ];
    assert(texts(r@) =~= builtin_direct());
    r
}

/// The domains that go through the proxy where nothing is configured.
pub fn default_proxy_domains() -> (r: Vec<String>)
    ensures
        texts(r@) == builtin_proxy(),
{
    let r = vec![
        "google.com".to_string(),
        "google-analytics.com".to_string(),
        "googleapis.com".to_string(),
        "gstatic.com".to_string(),
        "doubleclick.net".to_string(),
        "www.google-analytics.com".to_string(),
        "www.googleapis.com".to_string(),
        "www.gstatic.com".to_string(),
        "www.doubleclick.net".to_string(),
        "beacons.gcp.gvt2.com".to_string(),
    ];
    assert(texts(r@) =~= builtin_proxy());
    r
}

/// Appends one rule for each domain.
fn push_suffix_rules(rules: &mut Vec<String>, domains: &Vec<String>, action: &str)
    ensures
        texts(final(rules)@) == texts(old(rules)@) + suffix_rules(texts(domains@), action@),
{
    let mut i: usize = 0;
    let ghost before = texts(rules@);
    assert(texts(rules@) =~= before + suffix_rules(texts(domains@), action@).take(0));
    while i < domains.len()
        invariant
            i <= domains@.len(),
            texts(rules@) == before + suffix_rules(texts(domains@), action@).take(i as int),
        decreases domains@.len() - i,
    {
        let mut text: Vec<char> = chars_of("domain-suffix,");
        let mut domain: Vec<char> = chars_of(domains[i].as_str());
        let mut comma: Vec<char> = chars_of(",");
        let mut name: Vec<char> = chars_of(action);
        text.append(&mut domain);
        text.append(&mut comma);
        text.append(&mut name);
        assert(text@ =~= suffix_rule(texts(domains@)[i as int], action@));
        let rule = string_of(text.as_slice());
        proof {
            lemma_texts_push(rules@, rule);
        }
        rules.push(rule);
        let ghost all = suffix_rules(texts(domains@), action@);
        assert(all.take(i + 1) =~= all.take(i as int).push(all[i as int]));
        assert(texts(rules@) =~= before + all.take(i + 1));
        i += 1;
    }
    let ghost all = suffix_rules(texts(domains@), action@);
    assert(all.take(i as int) =~= all);
}

/// The domains that rules are made for: those that go directly and those that go through the proxy.
pub open spec fn ruled_domains(direct: Seq<Seq<char>>, proxy: Seq<Seq<char>>) -> (
    Seq<Seq<char>>,
    Seq<Seq<char>>,
) {
    if direct.len() == 0 && proxy.len() == 0 {
        (builtin_direct(), builtin_proxy())
    } else {
        (direct, proxy)
    }
}

/// The rules that are made where no file gives any: first the domains that go through the proxy,
/// then those that go directly, then the countries.
pub open spec fn made_rules(direct: Seq<Seq<char>>, proxy: Seq<Seq<char>>) -> Seq<Seq<char>> {
    let (d, p) = ruled_domains(direct, proxy);
    suffix_rules(p, "proxy"@) + suffix_rules(d, "direct"@) + seq![
        "geoip,CN,direct"@,
        "geoip,US,proxy"@,
    ]
}

/// The rules that a dispatcher starts with: those of the file, or those that are made from the
/// configuration.
pub open spec fn start_rules(
    config: AppConfig,
    rules_file: Option<Seq<char>>,
    direct_file: Option<Seq<char>>,
) -> Seq<Seq<char>> {
    let from_file = match rules_file {
        Some(c) => listed(lines_of(c)),
        None => Seq::empty(),
    };
    if from_file.len() > 0 {
        from_file
    } else {
        made_rules(direct_domains(config, direct_file), lowered(texts(config.domains.proxy@)))
    }
}

pub open spec fn text_of(s: Option<&str>) -> Option<Seq<char>> {
    match s {
        Some(t) => Some(t@),
        None => None,
    }
}

/// The rules that a dispatcher starts with. `rules_file` and `direct_file` are what `rules.txt`
/// and `direct_domains.txt` hold, where they can be read.
pub fn dispatcher_rules(
    app_config: &AppConfig,
    rules_file: Option<&str>,
    direct_file: Option<&str>,
) -> (r: Vec<String>)
    ensures
        texts(r@) == start_rules(*app_config, text_of(rules_file), text_of(direct_file)),
{
    let mut rules = load_quanx_rules_from_file(rules_file);
    assert(texts(rules@).len() == rules@.len());
    if rules.len() > 0 {
        return rules;
    }
    assert(texts(rules@) =~= Seq::<Seq<char>>::empty());
    let direct = load_direct_domains(app_config, direct_file);
    let proxy = load_proxy_domains(app_config);
    assert(direct.list().len() == direct.names@.len());
    assert(proxy.list().len() == proxy.names@.len());
    if direct.names.len() == 0 && proxy.names.len() == 0 {
        push_suffix_rules(&mut rules, &default_proxy_domains(), "proxy");
        push_suffix_rules(&mut rules, &default_direct_domains(), "direct");
    } else {
        push_suffix_rules(&mut rules, &proxy.names, "proxy");
        push_suffix_rules(&mut rules, &direct.names, "direct");
    }
    let ghost before = texts(rules@);
    let cn = "geoip,CN,direct".to_string();
    let us = "geoip,US,proxy".to_string();
    proof {
        lemma_texts_push(rules@, cn);
        lemma_texts_push(rules@.push(cn), us);
    }
    rules.push(cn);
    rules.push(us);
    assert(texts(rules@) =~= before + seq!["geoip,CN,direct"@, "geoip,US,proxy"@]);
    assert(texts(rules@) =~= start_rules(*app_config, text_of(rules_file), text_of(direct_file)));
    rules
}

/// How many rules do not begin with `geoip`.
pub open spec fn domain_rules(rules: Seq<Seq<char>>) -> nat
    decreases rules.len(),
{
    if rules.len() == 0 {
        0
    } else {
        domain_rules(rules.drop_last()) + (if starts_with(rules.last(), "geoip"@) {
            0nat
        } else {
            1nat
        })
    }
}

/// How many rules do not begin with `geoip`.
pub fn domain_rules_count(rules: &Vec<String>) -> (r: usize)
    ensures
        r == domain_rules(texts(rules@)),
        r <= rules@.len(),
{
    let mut n: usize = 0;
    let mut i: usize = 0;
    let geoip: Vec<char> = chars_of("geoip");
    assert(texts(rules@).take(0) =~= Seq::<Seq<char>>::empty());
    while i < rules.len()
        invariant
            n <= i <= rules@.len(),
            geoip@ == "geoip"@,
            n == domain_rules(texts(rules@).take(i as int)),
        decreases rules@.len() - i,
    {
        assert(texts(rules@).take(i + 1).drop_last() =~= texts(rules@).take(i as int));
        let rule: Vec<char> = chars_of(rules[i].as_str());
        if !has_prefix(rule.as_slice(), geoip.as_slice()) {
            n += 1;
        }
        i += 1;
    }
    assert(texts(rules@).take(i as int) =~= texts(rules@));
    n
}

/// The number of the first rule that needs the address of a host, behind the rules for domains.
/// The count is kept in 32 bits.
pub fn first_resolving_rule_id(domain_rules_count: usize) -> (r: u32)
    requires
        domain_rules_count as nat % 0x1_0000_0000 != 0xffff_ffff,
    ensures
        r == domain_rules_count as nat % 0x1_0000_0000 + 1,
{
    let low: u64 = domain_rules_count as u64 % 0x1_0000_0000;
    low as u32 + 1
}

/// The number of the direct way.
pub const DIRECT: u32 = 0;

/// The number of the way through the proxy.
pub const PROXY: u32 = 1;

/// The number of the way of flows that no rule takes: through the proxy, once their domain is
/// resolved.
pub const FALLBACK: u32 = 2;

/// The names that rules have for the ways, with the numbers of their actions.
pub open spec fn way_names() -> Seq<(Seq<char>, u32)> {
    seq![("direct"@, 0), ("proxy"@, 1)]
}

/// The dispatcher of a server. `rules_file` and `direct_file` are what `rules.txt` and
/// `direct_domains.txt` hold, where they can be read. There is none where the rules cannot be
/// numbered in 32 bits.
pub fn build_dispatcher(
    app_config: &AppConfig,
    rules_file: Option<&str>,
    direct_file: Option<&str>,
) -> (r: Option<RuleDispatcher>)
    ensures
        ({
            let rules = start_rules(*app_config, text_of(rules_file), text_of(direct_file));
            match r {
                Some(d) => {
                    &&& rules.len() <= u32::MAX && domain_rules(rules) < u32::MAX
                    &&& d.resolver
                    &&& d.fallback == FALLBACK
                    &&& action_items(d.actions) == seq![DIRECT, PROXY]
                    &&& d.rule_set.views() == rules_upto(rules, way_names(), rules.len())
                    &&& d.rule_set.first_resolving_rule_id == (match first_resolving(
                        d.rule_set.views(),
                    ) {
                        Some(_) => Some((domain_rules(rules) + 1) as u32),
                        None => None,
                    })
                },
                None => rules.len() > u32::MAX || domain_rules(rules) == u32::MAX,
            }
        }),
{
    let lines = dispatcher_rules(app_config, rules_file, direct_file);
    let count: usize = domain_rules_count(&lines);
    assert(texts(lines@).len() == lines@.len());
    if lines.len() > 0xffff_ffff || count == 0xffff_ffff {
        return None;
    }
    let names = vec![("direct".to_string(), 0u32), ("proxy".to_string(), 1u32)];
    assert(named(names@) =~= way_names());
    let mut rules = RuleSet::load_quanx_filter(&lines, &names);
    rules.number_resolving(first_resolving_rule_id(count));
    let mut dispatcher = RuleDispatcher::new(true, rules, FALLBACK);
    let direct = dispatcher.add_action(DIRECT);
    let proxy = dispatcher.add_action(PROXY);
    assert(direct == Some(RuleHandle(0)) && proxy == Some(RuleHandle(1)));
    assert(action_items(dispatcher.actions) =~= seq![DIRECT, PROXY]);
    Some(dispatcher)
}

/// Whether a domain is one of some domains, or below one.
pub open spec fn within_any(domain: Seq<char>, domains: Seq<Seq<char>>) -> bool {
    exists|i: int| 0 <= i < domains.len() && is_within(domain, #[trigger] domains[i])
}

/// Whether a target has an address in a country.
pub open spec fn lies_in(target: TargetView, country: Seq<char>) -> bool {
    ||| target.ip_v4 is Some && target.country_v4 == Some(country)
    ||| target.ip_v6 is Some && target.country_v6 == Some(country)
}

/// The way of a target by the rules that are made.
pub open spec fn made_way(
    direct: Seq<Seq<char>>,
    proxy: Seq<Seq<char>>,
    target: TargetView,
) -> u32 {
    let (d, p) = ruled_domains(direct, proxy);
    if target.domain matches Some(name) && within_any(name, p) {
        PROXY
    } else if target.domain matches Some(name) && within_any(name, d) {
        DIRECT
    } else if lies_in(target, "CN"@) {
        DIRECT
    } else if lies_in(target, "US"@) {
        PROXY
    } else {
        FALLBACK
    }
}

/// Whether no domain holds a comma, which is what parts the fields of a rule.
pub open spec fn without_commas(domains: Seq<Seq<char>>) -> bool {
    forall|i: int| 0 <= i < domains.len() ==> !(#[trigger] domains[i]).contains(',')
}

proof fn lemma_builtin_without_commas()
    ensures
        without_commas(builtin_direct()),
        without_commas(builtin_proxy()),
{
    reveal_strlit("acg.tv");
    reveal_strlit("acgvideo.com");
    reveal_strlit("b23.tv");
    reveal_strlit("bigfun.cn");
    reveal_strlit("bigfunapp.cn");
    reveal_strlit("biliapi.com");
    reveal_strlit("biliapi.net");
    reveal_strlit("bilibili.com");
    reveal_strlit("bilibili.tv");
    reveal_strlit("biligame.com");
    reveal_strlit("biligame.net");
    reveal_strlit("bilivideo.cn");
    reveal_strlit("bilivideo.com");
    reveal_strlit("hdslb.com");
    reveal_strlit("im9.com");
    reveal_strlit("smtcdns.net");
    reveal_strlit("baidu.com");
    reveal_strlit("baidubcr.com");
    reveal_strlit("baidupcs.com");
    reveal_strlit("baidustatic.com");
    reveal_strlit("bcebos.com");
    reveal_strlit("bdimg.com");
    reveal_strlit("bdstatic.com");
    reveal_strlit("bdurl.net");
    reveal_strlit("hao123.com");
    reveal_strlit("hao123img.com");
    reveal_strlit("jomodns.com");
    reveal_strlit("yunjiasu-cdn.net");
    reveal_strlit("google.com");
    reveal_strlit("google-analytics.com");
    reveal_strlit("googleapis.com");
    reveal_strlit("gstatic.com");
    reveal_strlit("doubleclick.net");
    reveal_strlit("www.google-analytics.com");
    reveal_strlit("www.googleapis.com");
    reveal_strlit("www.gstatic.com");
    reveal_strlit("www.doubleclick.net");
    reveal_strlit("beacons.gcp.gvt2.com");
}

/// The rule that is made for the `i`-th of the domains and countries, once it is read.
spec fn made_rule(direct: Seq<Seq<char>>, proxy: Seq<Seq<char>>, i: int) -> LoadedRuleView {
    let n = proxy.len() as int;
    let m = n + direct.len();
    let (kind, content, action, number) = if i < n {
        (RuleKind::DomainSuffix, proxy[i], "proxy"@, 1u32)
    } else if i < m {
        (RuleKind::DomainSuffix, direct[i - n], "direct"@, 0u32)
    } else if i == m {
        (RuleKind::GeoIp, "CN"@, "direct"@, 0u32)
    } else {
        (RuleKind::GeoIp, "US"@, "proxy"@, 1u32)
    };
    LoadedRuleView {
        rule: RuleView { kind, content, action, no_resolve: false },
        action: RuleHandle(number),
        network: network_spec(content),
    }
}

proof fn lemma_made_rule(direct: Seq<Seq<char>>, proxy: Seq<Seq<char>>, i: int)
    requires
        without_commas(ruled_domains(direct, proxy).0),
        without_commas(ruled_domains(direct, proxy).1),
        0 <= i < made_rules(direct, proxy).len(),
    ensures
        ({
            let (d, p) = ruled_domains(direct, proxy);
            let made = made_rule(d, p, i);
            &&& rule_of_fields(fields_from(made_rules(direct, proxy)[i], 0)) == Some(made.rule)
            &&& rule_of(way_names(), made.rule.action) == Some(made.action)
        }),
{
    let (d, p) = ruled_domains(direct, proxy);
    let n = p.len() as int;
    let m = n + d.len();
    let line = made_rules(direct, proxy)[i];
    reveal_strlit("direct");
    reveal_strlit("proxy");
    reveal_strlit("geoip");
    reveal_strlit("CN");
    reveal_strlit("US");
    reveal_strlit("geoip,CN,direct");
    reveal_strlit("geoip,US,proxy");
    assert("direct"@.len() == 6 && "proxy"@.len() == 5);
    assert(!"direct"@.contains(',') && !"proxy"@.contains(','));
    assert(!"CN"@.contains(',') && !"US"@.contains(','));
    reveal_with_fuel(rule_of, 3);
    assert(way_names().drop_first()[0] == ("proxy"@, 1u32));
    if i < n {
        assert(line == suffix_rule(p[i], "proxy"@));
        made_rules_are_read_back(p[i], "proxy"@);
    } else if i < m {
        assert(line == suffix_rule(d[i - n], "direct"@));
        made_rules_are_read_back(d[i - n], "direct"@);
    } else if i == m {
        assert(line == "geoip,CN,direct"@);
        assert(line =~= line_of("geoip"@, "CN"@, "direct"@));
        country_rules_are_read_back("CN"@, "direct"@);
    } else {
        assert(line == "geoip,US,proxy"@);
        assert(line =~= line_of("geoip"@, "US"@, "proxy"@));
        country_rules_are_read_back("US"@, "proxy"@);
    }
}

proof fn lemma_made_rules_load(direct: Seq<Seq<char>>, proxy: Seq<Seq<char>>, k: nat)
    requires
        without_commas(ruled_domains(direct, proxy).0),
        without_commas(ruled_domains(direct, proxy).1),
        k <= made_rules(direct, proxy).len(),
    ensures
        ({
            let (d, p) = ruled_domains(direct, proxy);
            rules_upto(made_rules(direct, proxy), way_names(), k) == Seq::new(
                k,
                |i: int| made_rule(d, p, i),
            )
        }),
    decreases k,
{
    let (d, p) = ruled_domains(direct, proxy);
    if k > 0 {
        lemma_made_rules_load(direct, proxy, (k - 1) as nat);
        lemma_made_rule(direct, proxy, k - 1);
    }
    assert(rules_upto(made_rules(direct, proxy), way_names(), k) =~= Seq::new(
        k,
        |i: int| made_rule(d, p, i),
    ));
}

proof fn lemma_domain_way(
    direct: Seq<Seq<char>>,
    proxy: Seq<Seq<char>>,
    rules: Seq<LoadedRuleView>,
    name: Seq<char>,
)
    requires
        rules == Seq::new(
            (proxy.len() + direct.len() + 2) as nat,
            |i: int| made_rule(direct, proxy, i),
        ),
    ensures
        match first_for_domain(rules, name, 0) {
            Some(j) => 0 <= j < rules.len() && if within_any(name, proxy) {
                rules[j].action == RuleHandle(1)
            } else {
                within_any(name, direct) && rules[j].action == RuleHandle(0)
            },
            None => !within_any(name, proxy) && !within_any(name, direct),
        },
{
    let n = proxy.len() as int;
    if within_any(name, proxy) {
        let i = choose|i: int| 0 <= i < proxy.len() && is_within(name, #[trigger] proxy[i]);
        assert(takes_domain(rules[i].rule, name));
        lemma_first_for_domain(rules, name, 0, i);
    } else if within_any(name, direct) {
        let i = choose|i: int| 0 <= i < direct.len() && is_within(name, #[trigger] direct[i]);
        assert(direct[n + i - n] == direct[i]);
        assert(takes_domain(rules[n + i].rule, name));
        lemma_first_for_domain(rules, name, 0, n + i);
        let j = first_for_domain(rules, name, 0)->Some_0;
        if j < n {
            assert(is_within(name, proxy[j]));
        }
    } else {
        assert forall|i: int| 0 <= i < rules.len() implies !takes_domain(
            (#[trigger] rules[i]).rule,
            name,
        ) by {
            if i < n {
                assert(!is_within(name, proxy[i]));
            } else if i < n + direct.len() {
                assert(!is_within(name, direct[i - n]));
            }
        }
        lemma_none_for_domain(rules, name, 0);
    }
}

/// The rules that are made decide in their order: first the domains that go through the proxy, then
/// those that go directly, then the countries; what no rule takes falls back to the proxy.
pub proof fn made_rules_decide(
    d: &RuleDispatcher,
    direct: Seq<Seq<char>>,
    proxy: Seq<Seq<char>>,
    query: MatchQueryView,
    country_v4: Option<Seq<char>>,
    country_v6: Option<Seq<char>>,
)
    requires
        without_commas(direct),
        without_commas(proxy),
        d.fallback == FALLBACK,
        action_items(d.actions) == seq![DIRECT, PROXY],
        d.rule_set.views() == rules_upto(
            made_rules(direct, proxy),
            way_names(),
            made_rules(direct, proxy).len(),
        ),
    ensures
        d.action_spec(rule_for_query(d.rule_set.views(), query, country_v4, country_v6)) == Ok::<
            u32,
            FlowError,
        >(made_way(direct, proxy, target_of(query, country_v4, country_v6))),
{
    let target = target_of(query, country_v4, country_v6);
    let (ds, ps) = ruled_domains(direct, proxy);
    let rules = d.rule_set.views();
    let m = (ps.len() + ds.len()) as int;
    lemma_builtin_without_commas();
    lemma_made_rules_load(direct, proxy, made_rules(direct, proxy).len());
    assert(rules =~= Seq::new((m + 2) as nat, |i: int| made_rule(ds, ps, i)));
    if let Some(name) = target.domain {
        lemma_domain_way(ds, ps, rules, name);
    }
    lemma_first_for_ip(rules, target, 0, m);
    reveal_with_fuel(first_for_ip, 3);
    assert(takes_address(rules[m], target) == lies_in(target, "CN"@));
    assert(takes_address(rules[m + 1], target) == lies_in(target, "US"@));
    lemma_no_final(rules, 0);
}

/// Each configured domain has its rule among those that are made.
pub proof fn configured_domains_have_rules(
    direct: Seq<Seq<char>>,
    proxy: Seq<Seq<char>>,
    domain: Seq<char>,
)
    ensures
        direct.contains(domain) ==> made_rules(direct, proxy).contains(
            suffix_rule(domain, "direct"@),
        ),
        proxy.contains(domain) ==> made_rules(direct, proxy).contains(
            suffix_rule(domain, "proxy"@),
        ),
{
    let all = made_rules(direct, proxy);
    if direct.contains(domain) {
        let i = choose|i: int| 0 <= i < direct.len() && direct[i] == domain;
        assert(all[proxy.len() + i] == suffix_rule(domain, "direct"@));
    }
    if proxy.contains(domain) {
        let i = choose|i: int| 0 <= i < proxy.len() && proxy[i] == domain;
        assert(all[i] == suffix_rule(domain, "proxy"@));
    }
}

// ---- Laws ----
/// A flow to a listed domain, or below one, is opened directly; any other, also one to an address, through
/// the proxy. Where the factory is gone there is no outbound: the other one never takes its place.
pub proof fn flows_are_split(
    f: &SmartOutboundFactory<u8, u8>,
    context: &FlowContext,
    r: Result<Chosen<'_, u8, u8>, FlowError>,
    domain: &str,
    direct: bool,
)
    requires
        call_ensures(SmartOutboundFactory::<u8, u8>::create_outbound, (f, context), r),
        call_ensures(SmartOutboundFactory::<u8, u8>::should_direct, (f, domain), direct),
    ensures
        f.direct_domains is None ==> !direct,
        f.direct_domains matches Some(set) ==> (direct <==> is_listed(domain@, set.list())),
        context.remote_peer@.host == crate::flow::HostView::DomainName(domain@) && direct ==> (
        match f.direct_factory {
            Some(d) => r matches Ok(Chosen::Direct(x)) && *x == d,
            None => r matches Err(e) && e == FlowError::NoOutbound,
        }),
        context.remote_peer@.host is Ip || (context.remote_peer@.host
            == crate::flow::HostView::DomainName(domain@) && !direct) ==> (match f.ss_factory {
            Some(s) => r matches Ok(Chosen::Proxy(x)) && *x == s,
            None => r matches Err(e) && e == FlowError::NoOutbound,
        }),
{
    match context.remote_peer.host {
        HostName::Ip(ip) => {
            assert(context.remote_peer@.host == crate::flow::HostView::Ip(ip));
        },
        HostName::DomainName(name) => {
            assert(context.remote_peer@.host == crate::flow::HostView::DomainName(name@));
        },
    }
}

/// A key is what its text spells in Base64, and has 16 bytes.
pub proof fn keys_have_sixteen_bytes(text: &str, r: Option<Vec<u8>>)
    requires
        call_ensures(ss_key, (text,), r),
    ensures
        r matches Some(key) ==> key@.len() == 16 && base64_bytes(text@) == Some(key@),
        base64_bytes(text@) matches Some(b) ==> (b.len() == 16 ==> r is Some),
{
}

/// The rules of the file count where it lists any, whatever the configuration says; else each configured
/// domain has its rule, for the proxy first, and the countries come last.
pub proof fn file_rules_come_first(
    config: &AppConfig,
    rules_file: Option<&str>,
    direct_file: Option<&str>,
    r: Vec<String>,
    direct: crate::domains::DomainSet,
    proxy: crate::domains::DomainSet,
)
    requires
        call_ensures(dispatcher_rules, (config, rules_file, direct_file), r),
        call_ensures(crate::domains::load_direct_domains, (config, direct_file), direct),
        call_ensures(crate::domains::load_proxy_domains, (config,), proxy),
    ensures
        rules_file matches Some(c) ==> (listed(lines_of(c@)).len() > 0 ==> texts(r@) == listed(
            lines_of(c@),
        )),
        (rules_file is None || listed(lines_of(rules_file->Some_0@)).len() == 0) && direct.names@.len()
            + proxy.names@.len() > 0 ==> r@.len() == proxy.names@.len() + direct.names@.len() + 2 && (
        forall|i: int|
            0 <= i < proxy.names@.len() ==> (#[trigger] r@[i])@ == "domain-suffix,"@
                + proxy.names@[i]@ + ","@ + "proxy"@) && (forall|i: int|
            0 <= i < direct.names@.len() ==> #[trigger] r@[proxy.names@.len() + i]@
                == "domain-suffix,"@ + direct.names@[i]@ + ","@ + "direct"@) && r@[r@.len() - 2]@
            == "geoip,CN,direct"@ && r@[r@.len() - 1]@ == "geoip,US,proxy"@,
{
    let all = texts(r@);
    assert(all.len() == r@.len());
    assert forall|i: int| 0 <= i < r@.len() implies #[trigger] all[i] == r@[i]@ by {
    }
    let (d, p) = (direct.list(), proxy.list());
    assert(d.len() == direct.names@.len() && p.len() == proxy.names@.len());
    if (rules_file is None || listed(lines_of(rules_file->Some_0@)).len() == 0) && d.len() + p.len()
        > 0 {
        let made = made_rules(d, p);
        assert(all == made);
        assert(made.len() == p.len() + d.len() + 2);
        assert forall|i: int| 0 <= i < p.len() implies (#[trigger] r@[i])@ == "domain-suffix,"@
            + proxy.names@[i]@ + ","@ + "proxy"@ by {
            assert(all[i] == r@[i]@);
            assert(made[i] == suffix_rule(p[i], "proxy"@));
            assert(p[i] == proxy.names@[i]@);
        }
        assert forall|i: int| 0 <= i < d.len() implies #[trigger] r@[proxy.names@.len() + i]@
            == "domain-suffix,"@ + direct.names@[i]@ + ","@ + "direct"@ by {
            let k = proxy.names@.len() + i;
            assert(all[k] == r@[k]@);
            assert(made[k] == suffix_rule(d[i], "direct"@));
            assert(d[i] == direct.names@[i]@);
        }
        assert(all[r@.len() - 2] == r@[r@.len() - 2]@ && all[r@.len() - 1] == r@[r@.len() - 1]@);
    }
}

/// The rules for domains are counted one by one: those that begin with `geoip` do not count, and all
/// others do, wherever they stand.
pub proof fn domain_rules_are_counted(a: Seq<Seq<char>>, b: Seq<Seq<char>>, rest: Seq<char>, other: Seq<char>)
    requires
        other.len() == 0 || other[0] != 'g',
    ensures
        domain_rules(a + b) == domain_rules(a) + domain_rules(b),
        domain_rules(seq!["geoip"@ + rest]) == 0,
        domain_rules(seq![other]) == 1,
    decreases b.len(),
{
    reveal_strlit("geoip");
    reveal_with_fuel(domain_rules, 2);
    let g = "geoip"@ + rest;
    assert(g.subrange(0, 5) =~= "geoip"@);
    assert(seq![g].drop_last() =~= Seq::<Seq<char>>::empty());
    assert(seq![other].drop_last() =~= Seq::<Seq<char>>::empty());
    if starts_with(other, "geoip"@) {
        assert(other.subrange(0, 5)[0] == other[0]);
        assert("geoip"@[0] == 'g');
    }
    if b.len() == 0 {
        assert(a + b =~= a);
    } else {
        domain_rules_are_counted(a, b.drop_last(), rest, other);
        assert((a + b).drop_last() =~= a + b.drop_last());
        assert((a + b).last() == b.last());
    }
}

/// The dispatcher of a server has the direct way and the way through the proxy, under the names that rules
/// have for them, and falls back to a third; it keeps every rule that can be read, and has a resolver.
pub proof fn dispatchers_know_the_ways(
    config: &AppConfig,
    rules_file: &str,
    direct_file: Option<&str>,
    r: Option<RuleDispatcher>,
)
    requires
        listed(lines_of(rules_file@)).len() > 0,
        call_ensures(build_dispatcher, (config, Some(rules_file), direct_file), r),
    ensures
        r matches Some(d) ==> d.resolver && d.fallback == 2 && action_items(d.actions) == seq![
            0u32,
            1,
        ] && d.rule_set.views() == rules_upto(
            listed(lines_of(rules_file@)),
            seq![("direct"@, 0u32), ("proxy"@, 1u32)],
            listed(lines_of(rules_file@)).len(),
        ),
        listed(lines_of(rules_file@)).len() < u32::MAX ==> r is Some,
{
    lemma_domain_rules_bound(listed(lines_of(rules_file@)));
}

proof fn lemma_domain_rules_bound(rules: Seq<Seq<char>>)
    ensures
        domain_rules(rules) <= rules.len(),
    decreases rules.len(),
{
    if rules.len() > 0 {
        lemma_domain_rules_bound(rules.drop_last());
    }
}

/// Where nothing is configured, a few large sites go directly and a few through the proxy, with all that
/// lies below them.
pub proof fn large_sites_have_their_way(direct: Vec<String>, proxy: Vec<String>)
    requires
        call_ensures(default_direct_domains, (), direct),
        call_ensures(default_proxy_domains, (), proxy),
    ensures
        direct@.len() == 28,
        proxy@.len() == 10,
        within_any("acg.tv"@, texts(direct@)),
        within_any("acgvideo.com"@, texts(direct@)),
        within_any("b23.tv"@, texts(direct@)),
        within_any("bigfun.cn"@, texts(direct@)),
        within_any("bigfunapp.cn"@, texts(direct@)),
        within_any("biliapi.com"@, texts(direct@)),
        within_any("biliapi.net"@, texts(direct@)),
        within_any("bilibili.com"@, texts(direct@)),
        within_any("bilibili.tv"@, texts(direct@)),
        within_any("biligame.com"@, texts(direct@)),
        within_any("biligame.net"@, texts(direct@)),
        within_any("bilivideo.cn"@, texts(direct@)),
        within_any("bilivideo.com"@, texts(direct@)),
        within_any("hdslb.com"@, texts(direct@)),
        within_any("im9.com"@, texts(direct@)),
        within_any("smtcdns.net"@, texts(direct@)),
        within_any("baidu.com"@, texts(direct@)),
        within_any("baidubcr.com"@, texts(direct@)),
        within_any("baidupcs.com"@, texts(direct@)),
        within_any("baidustatic.com"@, texts(direct@)),
        within_any("bcebos.com"@, texts(direct@)),
        within_any("bdimg.com"@, texts(direct@)),
        within_any("bdstatic.com"@, texts(direct@)),
        within_any("bdurl.net"@, texts(direct@)),
        within_any("hao123.com"@, texts(direct@)),
        within_any("hao123img.com"@, texts(direct@)),
        within_any("jomodns.com"@, texts(direct@)),
        within_any("yunjiasu-cdn.net"@, texts(direct@)),
        within_any("google.com"@, texts(proxy@)),
        within_any("google-analytics.com"@, texts(proxy@)),
        within_any("googleapis.com"@, texts(proxy@)),
        within_any("gstatic.com"@, texts(proxy@)),
        within_any("doubleclick.net"@, texts(proxy@)),
        within_any("www.google-analytics.com"@, texts(proxy@)),
        within_any("www.googleapis.com"@, texts(proxy@)),
        within_any("www.gstatic.com"@, texts(proxy@)),
        within_any("www.doubleclick.net"@, texts(proxy@)),
        within_any("beacons.gcp.gvt2.com"@, texts(proxy@)),
{
    let (d, p) = (texts(direct@), texts(proxy@));
    assert(d.len() == direct@.len() && p.len() == proxy@.len());
    assert(is_within("acg.tv"@, texts(direct@)[0]));
    assert(is_within("acgvideo.com"@, texts(direct@)[1]));
    assert(is_within("b23.tv"@, texts(direct@)[2]));
    assert(is_within("bigfun.cn"@, texts(direct@)[3]));
    assert(is_within("bigfunapp.cn"@, texts(direct@)[4]));
    assert(is_within("biliapi.com"@, texts(direct@)[5]));
    assert(is_within("biliapi.net"@, texts(direct@)[6]));
    assert(is_within("bilibili.com"@, texts(direct@)[7]));
    assert(is_within("bilibili.tv"@, texts(direct@)[8]));
    assert(is_within("biligame.com"@, texts(direct@)[9]));
    assert(is_within("biligame.net"@, texts(direct@)[10]));
    assert(is_within("bilivideo.cn"@, texts(direct@)[11]));
    assert(is_within("bilivideo.com"@, texts(direct@)[12]));
    assert(is_within("hdslb.com"@, texts(direct@)[13]));
    assert(is_within("im9.com"@, texts(direct@)[14]));
    assert(is_within("smtcdns.net"@, texts(direct@)[15]));
    assert(is_within("baidu.com"@, texts(direct@)[16]));
    assert(is_within("baidubcr.com"@, texts(direct@)[17]));
    assert(is_within("baidupcs.com"@, texts(direct@)[18]));
    assert(is_within("baidustatic.com"@, texts(direct@)[19]));
    assert(is_within("bcebos.com"@, texts(direct@)[20]));
    assert(is_within("bdimg.com"@, texts(direct@)[21]));
    assert(is_within("bdstatic.com"@, texts(direct@)[22]));
    assert(is_within("bdurl.net"@, texts(direct@)[23]));
    assert(is_within("hao123.com"@, texts(direct@)[24]));
    assert(is_within("hao123img.com"@, texts(direct@)[25]));
    assert(is_within("jomodns.com"@, texts(direct@)[26]));
    assert(is_within("yunjiasu-cdn.net"@, texts(direct@)[27]));
    assert(is_within("google.com"@, texts(proxy@)[0]));
    assert(is_within("google-analytics.com"@, texts(proxy@)[1]));
    assert(is_within("googleapis.com"@, texts(proxy@)[2]));
    assert(is_within("gstatic.com"@, texts(proxy@)[3]));
    assert(is_within("doubleclick.net"@, texts(proxy@)[4]));
    assert(is_within("www.google-analytics.com"@, texts(proxy@)[5]));
    assert(is_within("www.googleapis.com"@, texts(proxy@)[6]));
    assert(is_within("www.gstatic.com"@, texts(proxy@)[7]));
    assert(is_within("www.doubleclick.net"@, texts(proxy@)[8]));
    assert(is_within("beacons.gcp.gvt2.com"@, texts(proxy@)[9]));
}

/// The rules that need addresses are numbered right behind the rules for domains.
pub proof fn resolving_rules_come_behind(rules: &Vec<String>, count: usize, first: u32)
    requires
        rules@.len() < u32::MAX,
        call_ensures(domain_rules_count, (rules,), count),
        call_ensures(first_resolving_rule_id, (count,), first),
    ensures
        first == count + 1,
        count <= rules@.len(),
{
    vstd::arithmetic::div_mod::lemma_small_mod(count as nat, 0x1_0000_0000);
}

} // verus!
