//! From a flow to what is done with it.
use vstd::prelude::*;

use crate::deps::small_list::action_items;
use crate::deps::small_list::action_set_get;
use crate::deps::small_list::action_set_len;
use crate::deps::small_list::action_set_new;
use crate::deps::small_list::action_set_push;
use crate::deps::small_list::ActionSet;
use crate::flow::error::FlowError;
use crate::flow::DestinationAddr;
use crate::flow::FlowContext;
use crate::flow::HostName;
use crate::flow::HostView;
use crate::net::IpAddr;
use crate::net::Ipv4Addr;
use crate::net::Ipv6Addr;
use crate::net::SocketAddr;
use crate::rule_dispatcher::quanx::ip_target;
use crate::rule_dispatcher::quanx::is_meant;
use crate::rule_dispatcher::quanx::line_of;
use crate::rule_dispatcher::quanx::matched_spec;
use crate::rule_dispatcher::quanx::one_rule_takes_what_it_means;
use crate::rule_dispatcher::quanx::rules_upto;
use crate::rule_dispatcher::quanx::text_view;
use crate::rule_dispatcher::quanx::LoadedRuleView;
use crate::rule_dispatcher::quanx::RuleSet;
use crate::rule_dispatcher::quanx::Target;
use crate::rule_dispatcher::quanx::TargetView;
use crate::rule_dispatcher::rules::geoip::rule_of;
use crate::rule_dispatcher::rules::geoip::RuleHandle;

verus! {

/// Sends flows to actions, by the rules that they match. Actions go by their numbers.
pub struct RuleDispatcher {
    /// Whether there is a resolver.
    pub resolver: bool,
    pub rule_set: RuleSet,
    pub actions: ActionSet,
    pub fallback: u32,
}

/// What the rules are matched against.
pub struct MatchQuery {
    pub src: Option<SocketAddr>,
    pub dst_ip_v4: Option<Ipv4Addr>,
    pub dst_ip_v6: Option<Ipv6Addr>,
    pub dst_domain: Option<String>,
    pub dst_port: Option<u16>,
}

#[verifier::ext_equal]
pub struct MatchQueryView {
    pub src: Option<SocketAddr>,
    pub dst_ip_v4: Option<Ipv4Addr>,
    pub dst_ip_v6: Option<Ipv6Addr>,
    pub dst_domain: Option<Seq<char>>,
    pub dst_port: Option<u16>,
}

impl View for MatchQuery {
    type V = MatchQueryView;

    open spec fn view(&self) -> MatchQueryView {
        MatchQueryView {
            src: self.src,
            dst_ip_v4: self.dst_ip_v4,
            dst_ip_v6: self.dst_ip_v6,
            dst_domain: crate::deps::uri::opt_view(self.dst_domain),
            dst_port: self.dst_port,
        }
    }
}

/// A match that waits for the addresses of a domain.
pub struct AsyncMatchContext {
    pub src: Option<SocketAddr>,
    pub dst_domain: String,
    pub dst_port: Option<u16>,
    pub resolved_ipv4: Option<Ipv4Addr>,
    pub resolved_ipv6: Option<Ipv6Addr>,
}

/// What comes of a flow before any address is resolved.
pub enum TryMatchResult {
    /// The flow takes this action.
    Matched(u32),
    /// The addresses of a domain are needed first.
    NeedAsync(AsyncMatchContext),
    /// The flow has no outbound.
    Failed(FlowError),
}

/// What the rules are matched against for a host as it stands.
pub open spec fn plain_query(src: Option<SocketAddr>, host: HostView, port: Option<u16>) -> MatchQueryView {
    MatchQueryView {
        src,
        dst_ip_v4: match host {
            HostView::Ip(IpAddr::V4(ip)) => Some(ip),
            _ => None,
        },
        dst_ip_v6: match host {
            HostView::Ip(IpAddr::V6(ip)) => Some(ip),
            _ => None,
        },
        dst_domain: match host {
            HostView::DomainName(name) => Some(name),
            _ => None,
        },
        dst_port: port,
    }
}

/// The first item of a list, if the list is there and has one.
pub open spec fn first_of_list<T>(v: Option<Vec<T>>) -> Option<T> {
    match v {
        Some(ips) if ips@.len() > 0 => Some(ips@[0]),
        _ => None,
    }
}

/// The target that a query and the countries of its addresses make.
pub open spec fn target_of(
    query: MatchQueryView,
    country_v4: Option<Seq<char>>,
    country_v6: Option<Seq<char>>,
) -> TargetView {
    TargetView {
        domain: query.dst_domain,
        ip_v4: query.dst_ip_v4,
        ip_v6: query.dst_ip_v6,
        country_v4,
        country_v6,
    }
}

/// The rule that takes a query, by the number of its action. Rules do not look at where a flow
/// comes from, nor at its port.
pub open spec fn rule_for_query(
    rules: Seq<LoadedRuleView>,
    query: MatchQueryView,
    country_v4: Option<Seq<char>>,
    country_v6: Option<Seq<char>>,
) -> Option<RuleHandle> {
    matched_spec(rules, target_of(query, country_v4, country_v6))
}

impl AsyncMatchContext {
    /// What the rules are matched against: the first address of each family, and the domain.
    pub open spec fn query_spec(&self) -> MatchQueryView {
        MatchQueryView {
            src: self.src,
            dst_ip_v4: self.resolved_ipv4,
            dst_ip_v6: self.resolved_ipv6,
            dst_domain: Some(self.dst_domain@),
            dst_port: self.dst_port,
        }
    }

    /// Takes what a resolver answered: the first address of each family.
    pub fn on_resolved(&mut self, v4: Option<Vec<Ipv4Addr>>, v6: Option<Vec<Ipv6Addr>>)
        requires
            old(self).resolved_ipv4 is None,
            old(self).resolved_ipv6 is None,
        ensures
            final(self).src == old(self).src,
            final(self).dst_domain == old(self).dst_domain,
            final(self).dst_port == old(self).dst_port,
            final(self).resolved_ipv4 == first_of_list(v4),
            final(self).resolved_ipv6 == first_of_list(v6),
    {
        if let Some(ips) = v4 {
            if ips.len() > 0 {
                self.resolved_ipv4 = Some(ips[0]);
            }
        }
        if let Some(ips) = v6 {
            if ips.len() > 0 {
                self.resolved_ipv6 = Some(ips[0]);
            }
        }
    }

    /// The action for a domain, once its addresses were resolved. `country_v4` and `country_v6` are
    /// the codes of the countries that they lie in, where they are known.
    pub fn try_match(
        &self,
        me: &RuleDispatcher,
        country_v4: Option<&str>,
        country_v6: Option<&str>,
    ) -> (r: Result<u32, FlowError>)
        ensures
            r == me.action_spec(
                rule_for_query(
                    me.rule_set.views(),
                    self.query_spec(),
                    text_view(country_v4),
                    text_view(country_v6),
                ),
            ),
    {
        let query = MatchQuery {
            src: self.src,
            dst_ip_v4: self.resolved_ipv4,
            dst_ip_v6: self.resolved_ipv6,
            dst_domain: Some(self.dst_domain.clone()),
            dst_port: self.dst_port,
        };
        assert(query@ == self.query_spec());
        me.decide(&query, country_v4, country_v6)
    }

    /// The address that a matched flow goes to instead of its domain: an IPv4 address before an
    /// IPv6 address.
    pub open spec fn preferred(&self) -> Option<IpAddr> {
        match (self.resolved_ipv4, self.resolved_ipv6) {
            (Some(ip), _) => Some(IpAddr::V4(ip)),
            (None, Some(ip)) => Some(IpAddr::V6(ip)),
            (None, None) => None,
        }
    }

    /// Puts the address that was resolved in the place of the domain of a matched flow.
    pub fn apply(&self, context: FlowContext) -> (r: FlowContext)
        ensures
            r == (match (context.remote_peer.host, self.preferred()) {
                (HostName::DomainName(_), Some(ip)) => FlowContext {
                    remote_peer: DestinationAddr {
                        host: HostName::Ip(ip),
                        port: context.remote_peer.port,
                    },
                    ..context
                },
                _ => context,
            }),
    {
        let named = match &context.remote_peer.host {
            HostName::DomainName(_) => true,
            HostName::Ip(_) => false,
        };
        if !named {
            return context;
        }
        let ip = match (self.resolved_ipv4, self.resolved_ipv6) {
            (Some(ip), _) => IpAddr::V4(ip),
            (None, Some(ip)) => IpAddr::V6(ip),
            (None, None) => {
                return context;
            },
        };
        let port: u16 = context.remote_peer.port;
        FlowContext { remote_peer: DestinationAddr { host: HostName::Ip(ip), port }, ..context }
    }
}

impl RuleDispatcher {
    /// A dispatcher without actions but for the one that unmatched flows take.
    pub fn new(resolver: bool, rule_set: RuleSet, fallback: u32) -> (r: Self)
        ensures
            r.resolver == resolver,
            r.rule_set == rule_set,
            r.fallback == fallback,
            action_items(r.actions) == Seq::<u32>::empty(),
    {
        RuleDispatcher { resolver, rule_set, actions: action_set_new(), fallback }
    }

    /// Adds an action; the rules speak of it by the number that is returned. There is room for
    /// 65536.
    pub fn add_action(&mut self, action: u32) -> (r: Option<RuleHandle>)
        ensures
            final(self).resolver == old(self).resolver,
            final(self).rule_set == old(self).rule_set,
            final(self).fallback == old(self).fallback,
            match r {
                Some(h) => h.0 < 0x1_0000 && h.0 == action_items(old(self).actions).len()
                    && action_items(final(self).actions) == action_items(
                    old(self).actions,
                ).push(action),
                None => action_items(old(self).actions).len() >= 0x1_0000 && final(self).actions
                    == old(self).actions,
            },
    {
        let n: usize = action_set_len(&self.actions);
        if n >= 0x1_0000 {
            return None;
        }
        action_set_push(&mut self.actions, action);
        Some(RuleHandle(n as u32))
    }

    /// What comes of a flow before any address is resolved. `country` is the code of the country that
    /// its address lies in, where it goes to an address and the country is known, and
    /// `resolver_alive` says whether the resolver is still there.
    pub fn try_match(
        &self,
        context: &FlowContext,
        country: Option<&str>,
        resolver_alive: bool,
    ) -> (r: TryMatchResult)
        ensures
            match context.remote_peer.host {
                HostName::DomainName(domain) if self.resolver && self.rule_set.resolves_domain(
                    domain@,
                ) => if resolver_alive {
                    r matches TryMatchResult::NeedAsync(c) && c.src == Some(context.local_peer)
                        && c.dst_domain@ == domain@ && c.dst_port == Some(
                        context.remote_peer.port,
                    ) && c.resolved_ipv4 is None && c.resolved_ipv6 is None
                } else {
                    r == TryMatchResult::Failed(FlowError::NoOutbound)
                },
                _ => self.gives(
                    r,
                    plain_query(
                        Some(context.local_peer),
                        context.remote_peer.host@,
                        Some(context.remote_peer.port),
                    ),
                    text_view(country),
                ),
            },
    {
        let src = Some(context.local_peer);
        let dst_port = Some(context.remote_peer.port);
        let mut query = MatchQuery {
            src,
            dst_ip_v4: None,
            dst_ip_v6: None,
            dst_domain: None,
            dst_port,
        };
        match &context.remote_peer.host {
            HostName::DomainName(domain) => {
                if self.resolver && self.rule_set.should_resolve(domain.as_str()) {
                    if !resolver_alive {
                        return TryMatchResult::Failed(FlowError::NoOutbound);
                    }
                    return TryMatchResult::NeedAsync(
                        AsyncMatchContext {
                            src,
                            dst_domain: domain.clone(),
                            dst_port,
                            resolved_ipv4: None,
                            resolved_ipv6: None,
                        },
                    );
                }
                query.dst_domain = Some(domain.clone());
            },
            HostName::Ip(IpAddr::V4(ip)) => {
                query.dst_ip_v4 = Some(*ip);
            },
            HostName::Ip(IpAddr::V6(ip)) => {
                query.dst_ip_v6 = Some(*ip);
            },
        }
        self.matched_now(&query, country)
    }

    /// Whether a result is the action for a query that needs no more addresses, or says that it has
    /// none.
    pub open spec fn gives(
        &self,
        r: TryMatchResult,
        query: MatchQueryView,
        country: Option<Seq<char>>,
    ) -> bool {
        match self.action_spec(rule_for_query(self.rule_set.views(), query, country, country)) {
            Ok(a) => r == TryMatchResult::Matched(a),
            Err(e) => r == TryMatchResult::Failed(e),
        }
    }

    fn matched_now(&self, query: &MatchQuery, country: Option<&str>) -> (r: TryMatchResult)
        ensures
            self.gives(r, query@, text_view(country)),
    {
        match self.decide(query, country, country) {
            Ok(a) => TryMatchResult::Matched(a),
            Err(e) => TryMatchResult::Failed(e),
        }
    }

    /// What comes of a domain that a resolver is asked for.
    pub fn match_domain(&self, domain: &str, resolver_alive: bool) -> (r: TryMatchResult)
        ensures
            if self.resolver && self.rule_set.resolves_domain(domain@) {
                if resolver_alive {
                    r matches TryMatchResult::NeedAsync(c) && c.src is None && c.dst_domain@
                        == domain@ && c.dst_port is None && c.resolved_ipv4 is None
                        && c.resolved_ipv6 is None
                } else {
                    r == TryMatchResult::Failed(FlowError::NoOutbound)
                }
            } else {
                self.gives(r, plain_query(None, HostView::DomainName(domain@), None), None)
            },
    {
        if self.resolver && self.rule_set.should_resolve(domain) {
            if !resolver_alive {
                return TryMatchResult::Failed(FlowError::NoOutbound);
            }
            return TryMatchResult::NeedAsync(
                AsyncMatchContext {
                    src: None,
                    dst_domain: domain.to_string(),
                    dst_port: None,
                    resolved_ipv4: None,
                    resolved_ipv6: None,
                },
            );
        }
        let query = MatchQuery {
            src: None,
            dst_ip_v4: None,
            dst_ip_v6: None,
            dst_domain: Some(domain.to_string()),
            dst_port: None,
        };
        assert(query@ =~= plain_query(None, HostView::DomainName(domain@), None));
        self.matched_now(&query, None)
    }

    /// The action for a query: that of the rule that takes it, or the one for unmatched flows.
    /// `country_v4` and `country_v6` are the codes of the countries that its addresses lie in, where
    /// they are known.
    pub fn decide(
        &self,
        query: &MatchQuery,
        country_v4: Option<&str>,
        country_v6: Option<&str>,
    ) -> (r: Result<u32, FlowError>)
        ensures
            r == self.action_spec(
                rule_for_query(
                    self.rule_set.views(),
                    query@,
                    text_view(country_v4),
                    text_view(country_v6),
                ),
            ),
    {
        let target = Target {
            domain: match &query.dst_domain {
                Some(d) => Some(d.as_str()),
                None => None,
            },
            ip_v4: query.dst_ip_v4,
            ip_v6: query.dst_ip_v6,
            country_v4,
            country_v6,
        };
        assert(target@ =~= target_of(query@, text_view(country_v4), text_view(country_v6)));
        self.action_for(self.rule_set.matched(target))
    }

    /// The action for what the rules matched: that of the rule, or the one for unmatched flows. A
    /// rule whose action is not there leaves no outbound.
    pub open spec fn action_spec(&self, matched: Option<RuleHandle>) -> Result<u32, FlowError> {
        match matched {
            Some(h) => if h.0 < action_items(self.actions).len() {
                Ok(action_items(self.actions)[h.0 as int])
            } else {
                Err(FlowError::NoOutbound)
            },
            None => Ok(self.fallback),
        }
    }

    /// The action for what the rules matched: that of the rule, or the one for unmatched flows. A
    /// rule whose action is not there leaves no outbound.
    pub fn action_for(&self, matched: Option<RuleHandle>) -> (r: Result<u32, FlowError>)
        ensures
            r == self.action_spec(matched),
    {
        match matched {
            Some(h) => match action_set_get(&self.actions, h.0 as usize) {
                Some(a) => Ok(a),
                None => Err(FlowError::NoOutbound),
            },
            None => Ok(self.fallback),
        }
    }
}

/// With a single rule for addresses, a flow to an address takes the action of the rule where its type
/// and its content mean the address, and the action for unmatched flows otherwise.
pub proof fn one_rule_decides(
    d: &RuleDispatcher,
    src: SocketAddr,
    port: u16,
    kind: Seq<char>,
    content: Seq<char>,
    action: Seq<char>,
    actions: Seq<(Seq<char>, u32)>,
    ip: IpAddr,
    country: Option<Seq<char>>,
)
    requires
        kind == "ip-cidr"@ || kind == "ip6-cidr"@ || kind == "ip-cidr6"@ || kind == "geoip"@,
        !content.contains(','),
        !action.contains(','),
        rule_of(actions, action) is Some,
        d.rule_set.views() == rules_upto(seq![line_of(kind, content, action)], actions, 1),
    ensures
        d.action_spec(
            rule_for_query(
                d.rule_set.views(),
                plain_query(Some(src), HostView::Ip(ip), Some(port)),
                country,
                country,
            ),
        ) == if is_meant(kind, content, ip, country) {
            d.action_spec(rule_of(actions, action))
        } else {
            Ok(d.fallback)
        },
{
    one_rule_takes_what_it_means(kind, content, action, actions, ip, country);
    let query = plain_query(Some(src), HostView::Ip(ip), Some(port));
    assert(target_of(query, country, country) =~= ip_target(ip, country));
}

/// Actions are numbered in the order in which they are added, and a rule takes the action with its
/// number. What no rule takes falls back, and a rule without an action has no outbound.
pub proof fn actions_have_numbers(
    d: &mut RuleDispatcher,
    action: u32,
    handle: Option<RuleHandle>,
    taken: Result<u32, FlowError>,
    earlier: RuleHandle,
    before: Result<u32, FlowError>,
    after: Result<u32, FlowError>,
    none: Result<u32, FlowError>,
)
    requires
        call_ensures(RuleDispatcher::action_for, (&*old(d), Some(earlier)), before),
        call_ensures(RuleDispatcher::add_action, (d, action), handle),
        handle is Some,
        call_ensures(RuleDispatcher::action_for, (&*final(d), handle), taken),
        call_ensures(RuleDispatcher::action_for, (&*final(d), Some(earlier)), after),
        call_ensures(RuleDispatcher::action_for, (&*final(d), None), none),
    ensures
        taken == Ok::<u32, FlowError>(action),
        before is Ok ==> after == before,
        before is Err <==> earlier.0 >= handle->Some_0.0,
        before matches Err(e) ==> e == FlowError::NoOutbound,
        none == Ok::<u32, FlowError>(old(d).fallback),
{
}

/// A domain that a resolver is asked for is treated as a flow to that domain would be, with nothing known
/// of its source and port.
pub proof fn asked_domains_are_matched(
    d: &RuleDispatcher,
    domain: &str,
    alive: bool,
    r: TryMatchResult,
    context: &FlowContext,
    flow: TryMatchResult,
)
    requires
        context.remote_peer@.host == HostView::DomainName(domain@),
        call_ensures(RuleDispatcher::match_domain, (d, domain, alive), r),
        call_ensures(RuleDispatcher::try_match, (d, context, None, alive), flow),
    ensures
        r is NeedAsync <==> flow is NeedAsync,
        r matches TryMatchResult::Matched(a) ==> flow == TryMatchResult::Matched(a),
        r matches TryMatchResult::Failed(e) ==> flow == TryMatchResult::Failed(e),
        r matches TryMatchResult::NeedAsync(c) ==> c.src is None && c.dst_port is None
            && c.dst_domain@ == domain@,
        flow matches TryMatchResult::NeedAsync(c) ==> c.src == Some(context.local_peer)
            && c.dst_port == Some(context.remote_peer.port) && c.dst_domain@ == domain@,
{
    match context.remote_peer.host {
        HostName::DomainName(name) => {
            assert(context.remote_peer@.host == HostView::DomainName(name@));
            let a = plain_query(None, HostView::DomainName(domain@), None);
            let b = plain_query(
                Some(context.local_peer),
                HostView::DomainName(domain@),
                Some(context.remote_peer.port),
            );
            assert(target_of(a, None, None) == target_of(b, None, None));
        },
        HostName::Ip(ip) => {
            assert(context.remote_peer@.host == HostView::Ip(ip));
        },
    }
}

/// Of what a resolver answered, the first address of each family is kept; a flow goes to the IPv4
/// address, else to the IPv6 address, else to its domain.
pub proof fn first_answers_are_kept(
    c: &mut AsyncMatchContext,
    v4: Option<Vec<Ipv4Addr>>,
    v6: Option<Vec<Ipv6Addr>>,
    context: FlowContext,
    r: FlowContext,
)
    requires
        c.resolved_ipv4 is None,
        c.resolved_ipv6 is None,
        context.remote_peer.host is DomainName,
        call_ensures(AsyncMatchContext::on_resolved, (c, v4, v6), ()),
        call_ensures(AsyncMatchContext::apply, (&*final(c), context), r),
    ensures
        r.remote_peer.port == context.remote_peer.port,
        r.local_peer == context.local_peer,
        v4 matches Some(a) ==> (a@.len() > 0 ==> r.remote_peer.host == HostName::Ip(
            IpAddr::V4(a@[0]),
        )),
        (v4 is None || v4->Some_0@.len() == 0) ==> (v6 matches Some(b) ==> (b@.len() > 0
            ==> r.remote_peer.host == HostName::Ip(IpAddr::V6(b@[0])))),
        (v4 is None || v4->Some_0@.len() == 0) && (v6 is None || v6->Some_0@.len() == 0) ==> r
            == context,
{
}

} // verus!
