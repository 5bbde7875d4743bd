//! What rules mean, from the line that spells a rule to the flow that it takes.
use vstd::arithmetic::power2::pow2;
use vstd::prelude::*;

use crate::deps::small_list::action_items;
use crate::domains::is_within;
use crate::flow::error::FlowError;
use crate::flow::HostView;
use crate::net::IpAddr;
use crate::net::Ipv4Addr;
use crate::net::Ipv6Addr;
use crate::net::SocketAddr;
use crate::net_text::dotted;
use crate::net_text::ip_of;
use crate::rule_dispatcher::dispatcher::plain_query;
use crate::rule_dispatcher::dispatcher::target_of;
use crate::rule_dispatcher::dispatcher::AsyncMatchContext;
use crate::rule_dispatcher::dispatcher::MatchQueryView;
use crate::rule_dispatcher::dispatcher::RuleDispatcher;
use crate::rule_dispatcher::dispatcher::TryMatchResult;
use crate::rule_dispatcher::quanx::fields_from;
use crate::rule_dispatcher::quanx::first_final;
use crate::rule_dispatcher::quanx::first_for_domain;
use crate::rule_dispatcher::quanx::first_for_ip;
use crate::rule_dispatcher::quanx::first_resolving;
use crate::rule_dispatcher::quanx::in_network;
use crate::rule_dispatcher::quanx::kind_of;
use crate::rule_dispatcher::quanx::lemma_first_of;
use crate::rule_dispatcher::quanx::marked_rules_need_no_addresses;
use crate::rule_dispatcher::quanx::matched_spec;
use crate::rule_dispatcher::quanx::network_spec;
use crate::rule_dispatcher::quanx::rule_for;
use crate::rule_dispatcher::quanx::rule_of_fields;
use crate::rule_dispatcher::quanx::rules_upto;
use crate::rule_dispatcher::quanx::takes_address;
use crate::rule_dispatcher::quanx::takes_domain;
use crate::rule_dispatcher::quanx::takes_ip;
use crate::rule_dispatcher::quanx::LoadedRuleView;
use crate::rule_dispatcher::quanx::RuleKind;
use crate::rule_dispatcher::quanx::RuleView;
use crate::rule_dispatcher::quanx::TargetView;
use crate::rule_dispatcher::rules::geoip::rule_of;
use crate::rule_dispatcher::rules::geoip::RuleHandle;
use crate::text::contains;
use crate::text::decimal;
use crate::text::ends_with;
use crate::text::stands_at;

verus! {

// ---- Lines ----
/// Texts with a comma between each two.
pub open spec fn joined(f: Seq<Seq<char>>) -> Seq<char>
    decreases f.len(),
{
    if f.len() == 0 {
        Seq::empty()
    } else if f.len() == 1 {
        f[0]
    } else {
        f[0] + seq![','] + joined(f.drop_first())
    }
}

/// Whether no text holds a comma.
pub open spec fn no_commas(f: Seq<Seq<char>>) -> bool {
    forall|i: int| 0 <= i < f.len() ==> !(#[trigger] f[i]).contains(',')
}

proof fn lemma_fields_behind(pre: Seq<char>, f: Seq<Seq<char>>)
    requires
        f.len() > 0,
        no_commas(f),
    ensures
        fields_from(pre + joined(f), pre.len() as int) == f,
    decreases f.len(),
{
    let s = pre + joined(f);
    let from = pre.len() as int;
    let at = from + f[0].len();
    assert(!f[0].contains(','));
    assert forall|i: int| from <= i < at implies s[i] != ',' by {
        assert(s[i] == f[0][i - from]);
    }
    if f.len() == 1 {
        lemma_first_of(s, ',', from, s.len() as int);
        assert(s.subrange(from, s.len() as int) =~= f[0]);
        assert(fields_from(s, from) =~= f);
    } else {
        let rest = f.drop_first();
        let pre2 = pre + f[0] + seq![','];
        assert(s[at] == ',');
        lemma_first_of(s, ',', from, at);
        assert forall|i: int| 0 <= i < rest.len() implies !(#[trigger] rest[i]).contains(',') by {
            assert(rest[i] == f[i + 1]);
        }
        lemma_fields_behind(pre2, rest);
        assert(pre2 + joined(rest) =~= s);
        assert(s.subrange(from, at) =~= f[0]);
        assert(seq![f[0]] + rest =~= f);
    }
}

/// A line is cut into the fields that it was made of.
pub proof fn lines_are_cut_at_commas(f: Seq<Seq<char>>)
    requires
        f.len() > 0,
        no_commas(f),
    ensures
        fields_from(joined(f), 0) == f,
{
    lemma_fields_behind(Seq::empty(), f);
    assert(Seq::<char>::empty() + joined(f) =~= joined(f));
}

/// What the first field of a rule says that it looks at.
pub open spec fn says(word: Seq<char>, kind: RuleKind) -> bool {
    ||| kind == RuleKind::Domain && (word == "host"@ || word == "domain"@)
    ||| kind == RuleKind::DomainSuffix && (word == "host-suffix"@ || word == "domain-suffix"@)
    ||| kind == RuleKind::DomainKeyword && (word == "host-keyword"@ || word == "domain-keyword"@)
    ||| kind == RuleKind::IpCidr && word == "ip-cidr"@
    ||| kind == RuleKind::Ip6Cidr && (word == "ip6-cidr"@ || word == "ip-cidr6"@)
    ||| kind == RuleKind::GeoIp && word == "geoip"@
    ||| kind == RuleKind::Final && word == "final"@
}

proof fn lemma_words()
    ensures
        forall|word: Seq<char>, kind: RuleKind| #[trigger]
            says(word, kind) ==> kind_of(word) == Some(kind) && !word.contains(','),
{
    reveal_strlit("host");
    reveal_strlit("domain");
    reveal_strlit("host-suffix");
    reveal_strlit("domain-suffix");
    reveal_strlit("host-keyword");
    reveal_strlit("domain-keyword");
    reveal_strlit("ip-cidr");
    reveal_strlit("ip6-cidr");
    reveal_strlit("ip-cidr6");
    reveal_strlit("geoip");
    reveal_strlit("final");
    assert("ip-cidr"@.len() == 7 && "ip6-cidr"@.len() == 8 && "ip-cidr6"@.len() == 8);
    assert("host"@.len() == 4 && "domain"@.len() == 6 && "host-suffix"@.len() == 11);
    assert("domain-suffix"@.len() == 13 && "host-keyword"@.len() == 12);
    assert("domain-keyword"@.len() == 14);
    assert("geoip"@.len() == 5 && "final"@.len() == 5);
    assert("geoip"@[0] == 'g' && "final"@[0] == 'f');
}

/// The line of a rule: its type, what it looks at, its action, and parameters.
pub open spec fn rule_line(
    word: Seq<char>,
    content: Seq<char>,
    action: Seq<char>,
    parameters: Seq<Seq<char>>,
) -> Seq<char> {
    joined(seq![word, content, action] + parameters)
}

/// The line of a rule that looks at nothing.
pub open spec fn final_line(action: Seq<char>, parameters: Seq<Seq<char>>) -> Seq<char> {
    joined(seq!["final"@, action] + parameters)
}

/// A line is read as the rule that it spells: of the type that its first field says, for the content
/// and the action in the next two, and marked where a parameter says `no-resolve`.
pub proof fn rule_lines_are_read(
    word: Seq<char>,
    kind: RuleKind,
    content: Seq<char>,
    action: Seq<char>,
    parameters: Seq<Seq<char>>,
)
    requires
        says(word, kind),
        kind != RuleKind::Final,
        !content.contains(','),
        !action.contains(','),
        no_commas(parameters),
    ensures
        rule_of_fields(fields_from(rule_line(word, content, action, parameters), 0)) == Some(
            RuleView { kind, content, action, no_resolve: parameters.contains("no-resolve"@) },
        ),
{
    let f = seq![word, content, action] + parameters;
    lemma_words();
    assert(kind_of(word) == Some(kind));
    assert forall|i: int| 0 <= i < f.len() implies !(#[trigger] f[i]).contains(',') by {
        if i >= 3 {
            assert(f[i] == parameters[i - 3]);
        }
    }
    lines_are_cut_at_commas(f);
    assert(f.skip(3) =~= parameters);
}

/// The same of the rule that looks at nothing.
pub proof fn final_lines_are_read(action: Seq<char>, parameters: Seq<Seq<char>>)
    requires
        !action.contains(','),
        no_commas(parameters),
    ensures
        rule_of_fields(fields_from(final_line(action, parameters), 0)) matches Some(r) && r.kind
            == RuleKind::Final && r.action == action,
{
    let f = seq!["final"@, action] + parameters;
    lemma_words();
    assert(says("final"@, RuleKind::Final));
    assert forall|i: int| 0 <= i < f.len() implies !(#[trigger] f[i]).contains(',') by {
        if i >= 2 {
            assert(f[i] == parameters[i - 2]);
        }
    }
    lines_are_cut_at_commas(f);
}

/// A line spells no rule where its first field says no type, or where its action is missing.
pub proof fn other_lines_are_no_rules(f: Seq<Seq<char>>)
    requires
        f.len() > 0,
        no_commas(f),
        ({
            ||| forall|kind: RuleKind| !says(f[0], kind)
            ||| f.len() < 2
            ||| f.len() < 3 && !says(f[0], RuleKind::Final)
        }),
    ensures
        rule_of_fields(fields_from(joined(f), 0)) is None,
{
    lines_are_cut_at_commas(f);
    lemma_words();
    if kind_of(f[0]) is Some {
        assert(says(f[0], kind_of(f[0])->0));
    }
}

/// Lines are read one by one: what they give stands in their order, and none has an effect on
/// another.
pub proof fn lines_are_read_one_by_one(
    a: Seq<Seq<char>>,
    b: Seq<Seq<char>>,
    actions: Seq<(Seq<char>, u32)>,
)
    ensures
        rules_upto(a + b, actions, (a + b).len()) == rules_upto(a, actions, a.len()) + rules_upto(
            b,
            actions,
            b.len(),
        ),
{
    lemma_prefix(a, b, actions, a.len());
    lemma_behind(a, b, actions, b.len());
}

proof fn lemma_prefix(
    a: Seq<Seq<char>>,
    b: Seq<Seq<char>>,
    actions: Seq<(Seq<char>, u32)>,
    n: nat,
)
    requires
        n <= a.len(),
    ensures
        rules_upto(a + b, actions, n) == rules_upto(a, actions, n),
    decreases n,
{
    if n > 0 {
        lemma_prefix(a, b, actions, (n - 1) as nat);
        assert((a + b)[n - 1] == a[n - 1]);
    }
}

proof fn lemma_behind(
    a: Seq<Seq<char>>,
    b: Seq<Seq<char>>,
    actions: Seq<(Seq<char>, u32)>,
    n: nat,
)
    requires
        n <= b.len(),
    ensures
        rules_upto(a + b, actions, (a.len() + n) as nat) == rules_upto(a, actions, a.len())
            + rules_upto(b, actions, n),
    decreases n,
{
    lemma_prefix(a, b, actions, a.len());
    if n > 0 {
        lemma_behind(a, b, actions, (n - 1) as nat);
        assert((a + b)[a.len() + n - 1] == b[n - 1]);
    }
    assert(rules_upto(a + b, actions, (a.len() + n) as nat) =~= rules_upto(a, actions, a.len())
        + rules_upto(b, actions, n));
}

/// An action is found by its name: the first that bears it.
pub proof fn actions_are_found_by_name(actions: Seq<(Seq<char>, u32)>, i: int)
    requires
        0 <= i < actions.len(),
        forall|j: int| 0 <= j < i ==> (#[trigger] actions[j]).0 != actions[i].0,
    ensures
        rule_of(actions, actions[i].0) == Some(RuleHandle(actions[i].1)),
    decreases i,
{
    if i > 0 {
        let rest = actions.drop_first();
        assert(actions[0].0 != actions[i].0);
        assert forall|j: int| 0 <= j < i - 1 implies (#[trigger] rest[j]).0 != rest[i - 1].0 by {
            assert(rest[j] == actions[j + 1]);
        }
        assert(rest[i - 1] == actions[i]);
        actions_are_found_by_name(rest, i - 1);
    }
}

/// No action is found under a name that none bears.
pub proof fn other_names_have_no_action(actions: Seq<(Seq<char>, u32)>, name: Seq<char>)
    requires
        forall|j: int| 0 <= j < actions.len() ==> (#[trigger] actions[j]).0 != name,
    ensures
        rule_of(actions, name) is None,
    decreases actions.len(),
{
    if actions.len() > 0 {
        let rest = actions.drop_first();
        assert(actions[0].0 != name);
        assert forall|j: int| 0 <= j < rest.len() implies (#[trigger] rest[j]).0 != name by {
            assert(rest[j] == actions[j + 1]);
        }
        other_names_have_no_action(rest, name);
    }
}

// ---- Domains ----
/// A domain below another.
pub open spec fn below(label: Seq<char>, domain: Seq<char>) -> Seq<char> {
    label + seq!['.'] + domain
}

/// A text with others around it.
pub open spec fn around(before: Seq<char>, text: Seq<char>, after: Seq<char>) -> Seq<char> {
    before + text + after
}

/// Whether a domain is meant by the type and the content of a rule: `host` and `domain` mean the
/// content itself, `host-suffix` and `domain-suffix` the content and what lies below it, and
/// `host-keyword` and `domain-keyword` what the content occurs in.
pub open spec fn domain_is_meant(word: Seq<char>, content: Seq<char>, domain: Seq<char>) -> bool {
    if word == "host"@ || word == "domain"@ {
        domain == content
    } else if word == "host-suffix"@ || word == "domain-suffix"@ {
        domain == content || exists|label: Seq<char>| domain == #[trigger] below(label, content)
    } else if word == "host-keyword"@ || word == "domain-keyword"@ {
        exists|before: Seq<char>, after: Seq<char>|
            domain == #[trigger] around(before, content, after)
    } else {
        false
    }
}

proof fn lemma_suffix(domain: Seq<char>, content: Seq<char>)
    ensures
        is_within(domain, content) <==> domain == content || exists|label: Seq<char>|
            domain == #[trigger] below(label, content),
{
    let dotted_content = seq!['.'] + content;
    if ends_with(domain, dotted_content) {
        let at = domain.len() - dotted_content.len();
        let label = domain.subrange(0, at);
        assert(domain =~= label + domain.subrange(at, at + dotted_content.len()));
        assert(domain =~= below(label, content));
    }
    if exists|label: Seq<char>| domain == #[trigger] below(label, content) {
        let label = choose|label: Seq<char>| domain == #[trigger] below(label, content);
        let at = domain.len() - dotted_content.len();
        assert(domain.subrange(at, at + dotted_content.len()) =~= dotted_content);
    }
}

proof fn lemma_keyword(domain: Seq<char>, content: Seq<char>)
    ensures
        contains(domain, content) <==> exists|before: Seq<char>, after: Seq<char>|
            domain == #[trigger] around(before, content, after),
{
    if contains(domain, content) {
        let at = choose|at: int| stands_at(domain, at, content);
        let before = domain.subrange(0, at);
        let after = domain.subrange(at + content.len(), domain.len() as int);
        assert(domain =~= before + domain.subrange(at, at + content.len()) + after);
        assert(domain =~= around(before, content, after));
    }
    if exists|before: Seq<char>, after: Seq<char>|
        domain == #[trigger] around(before, content, after) {
        let (before, after) = choose|before: Seq<char>, after: Seq<char>|
            domain == #[trigger] around(before, content, after);
        let at = before.len() as int;
        assert(domain.subrange(at, at + content.len()) =~= content);
        assert(stands_at(domain, at, content));
    }
}

/// A rule takes exactly the domains that its type and its content mean. A rule for addresses, and the
/// one that looks at nothing, takes no domain.
pub proof fn rules_take_the_domains_that_they_mean(
    word: Seq<char>,
    rule: RuleView,
    domain: Seq<char>,
)
    requires
        says(word, rule.kind),
    ensures
        takes_domain(rule, domain) <==> domain_is_meant(word, rule.content, domain),
{
    lemma_words();
    lemma_suffix(domain, rule.content);
    lemma_keyword(domain, rule.content);
    assert(kind_of(word) == Some(rule.kind));
}

/// A rule on a domain itself does not take what lies below the domain.
pub proof fn exact_rules_take_no_subdomains(rule: RuleView, label: Seq<char>)
    requires
        rule.kind == RuleKind::Domain,
    ensures
        takes_domain(rule, rule.content),
        !takes_domain(rule, below(label, rule.content)),
{
    assert(below(label, rule.content).len() > rule.content.len());
}

proof fn lemma_one_rule(
    word: Seq<char>,
    kind: RuleKind,
    content: Seq<char>,
    action: Seq<char>,
    parameters: Seq<Seq<char>>,
    actions: Seq<(Seq<char>, u32)>,
)
    requires
        says(word, kind),
        kind != RuleKind::Final,
        !content.contains(','),
        !action.contains(','),
        no_commas(parameters),
        rule_of(actions, action) is Some,
    ensures
        rules_upto(seq![rule_line(word, content, action, parameters)], actions, 1) == seq![
            LoadedRuleView {
                rule: RuleView {
                    kind,
                    content,
                    action,
                    no_resolve: parameters.contains("no-resolve"@),
                },
                action: rule_of(actions, action)->0,
                network: network_spec(content),
            },
        ],
{
    rule_lines_are_read(word, kind, content, action, parameters);
    reveal_with_fuel(rules_upto, 2);
    let line = rule_line(word, content, action, parameters);
    assert(seq![line][0] == line);
    assert(rules_upto(seq![line], actions, 0) =~= Seq::<LoadedRuleView>::empty());
}

/// A single rule for domains takes a target exactly where its type and its content mean the domain of
/// the target, whatever the addresses are.
pub proof fn one_rule_takes_the_domains_that_it_means(
    word: Seq<char>,
    kind: RuleKind,
    content: Seq<char>,
    action: Seq<char>,
    parameters: Seq<Seq<char>>,
    actions: Seq<(Seq<char>, u32)>,
    target: TargetView,
)
    requires
        says(word, kind),
        kind == RuleKind::Domain || kind == RuleKind::DomainSuffix || kind
            == RuleKind::DomainKeyword,
        !content.contains(','),
        !action.contains(','),
        no_commas(parameters),
        rule_of(actions, action) is Some,
    ensures
        matched_spec(
            rules_upto(seq![rule_line(word, content, action, parameters)], actions, 1),
            target,
        ) == if target.domain matches Some(d) && domain_is_meant(word, content, d) {
            rule_of(actions, action)
        } else {
            None
        },
{
    lemma_one_rule(word, kind, content, action, parameters, actions);
    let rules = rules_upto(seq![rule_line(word, content, action, parameters)], actions, 1);
    assert(rules.len() == 1);
    if let Some(d) = target.domain {
        rules_take_the_domains_that_they_mean(word, rules[0].rule, d);
    }
    reveal_with_fuel(first_for_domain, 2);
    reveal_with_fuel(first_for_ip, 2);
    reveal_with_fuel(first_final, 2);
    assert(!takes_address(rules[0], target));
}

/// The rule that looks at nothing takes every target that no other rule takes, and no other.
pub proof fn final_rule_takes_the_rest(
    rules: Seq<LoadedRuleView>,
    last: LoadedRuleView,
    target: TargetView,
)
    requires
        last.rule.kind == RuleKind::Final,
    ensures
        matched_spec(rules.push(last), target) == match matched_spec(rules, target) {
            Some(h) => Some(h),
            None => Some(last.action),
        },
{
    let all = rules.push(last);
    if let Some(d) = target.domain {
        lemma_domain_in_front(rules, last, d, 0);
    }
    lemma_address_in_front(rules, last, target, 0);
    lemma_final_in_front(rules, last, 0);
    assert(!takes_address(last, target));
    first_rule_counts(rules, target);
}

proof fn lemma_domain_in_front(
    rules: Seq<LoadedRuleView>,
    last: LoadedRuleView,
    d: Seq<char>,
    from: int,
)
    requires
        0 <= from <= rules.len(),
        !takes_domain(last.rule, d),
    ensures
        first_for_domain(rules.push(last), d, from) == first_for_domain(rules, d, from),
    decreases rules.len() - from,
{
    reveal_with_fuel(first_for_domain, 2);
    if from < rules.len() {
        lemma_domain_in_front(rules, last, d, from + 1);
    }
}

proof fn lemma_address_in_front(
    rules: Seq<LoadedRuleView>,
    last: LoadedRuleView,
    target: TargetView,
    from: int,
)
    requires
        0 <= from <= rules.len(),
        !takes_address(last, target),
    ensures
        first_for_ip(rules.push(last), target, from) == first_for_ip(rules, target, from),
    decreases rules.len() - from,
{
    reveal_with_fuel(first_for_ip, 2);
    if from < rules.len() {
        lemma_address_in_front(rules, last, target, from + 1);
    }
}

proof fn lemma_final_in_front(rules: Seq<LoadedRuleView>, last: LoadedRuleView, from: int)
    requires
        0 <= from <= rules.len(),
        last.rule.kind == RuleKind::Final,
    ensures
        first_final(rules.push(last), from) == match first_final(rules, from) {
            Some(i) => Some(i),
            None => Some(rules.len() as int),
        },
    decreases rules.len() - from,
{
    reveal_with_fuel(first_final, 2);
    if from < rules.len() {
        lemma_final_in_front(rules, last, from + 1);
    }
}

/// Whether a rule takes the domain of a target.
pub open spec fn by_domain(rule: LoadedRuleView, target: TargetView) -> bool {
    target.domain matches Some(d) && takes_domain(rule.rule, d)
}

/// The rule that counts is the first that takes the domain of a target; where none does, the first
/// that takes an address of it; where none does, the first that looks at nothing. There is no rule
/// only where there is none of these.
pub proof fn first_rule_counts(rules: Seq<LoadedRuleView>, target: TargetView)
    ensures
        match rule_for(rules, target) {
            Some(j) => {
                let no_domain = forall|i: int|
                    0 <= i < rules.len() ==> !by_domain(#[trigger] rules[i], target);
                let no_address = forall|i: int|
                    0 <= i < rules.len() ==> !takes_address(#[trigger] rules[i], target);
                &&& 0 <= j < rules.len()
                &&& matched_spec(rules, target) == Some(rules[j].action)
                &&& ({
                    ||| by_domain(rules[j], target) && forall|i: int|
                        0 <= i < j ==> !by_domain(#[trigger] rules[i], target)
                    ||| no_domain && takes_address(rules[j], target) && forall|i: int|
                        0 <= i < j ==> !takes_address(#[trigger] rules[i], target)
                    ||| no_domain && no_address && rules[j].rule.kind == RuleKind::Final
                        && forall|i: int|
                        0 <= i < j ==> (#[trigger] rules[i]).rule.kind != RuleKind::Final
                })
            },
            None => {
                &&& matched_spec(rules, target) is None
                &&& forall|i: int|
                    0 <= i < rules.len() ==> !by_domain(#[trigger] rules[i], target)
                        && !takes_address(rules[i], target) && rules[i].rule.kind
                        != RuleKind::Final
            },
        },
{
    if let Some(d) = target.domain {
        lemma_domain_scan(rules, d, 0);
    }
    lemma_address_scan(rules, target, 0);
    lemma_final_scan(rules, 0);
}

proof fn lemma_domain_scan(rules: Seq<LoadedRuleView>, d: Seq<char>, from: int)
    requires
        0 <= from <= rules.len(),
    ensures
        match first_for_domain(rules, d, from) {
            Some(j) => from <= j < rules.len() && takes_domain(rules[j].rule, d) && forall|i: int|
                from <= i < j ==> !takes_domain((#[trigger] rules[i]).rule, d),
            None => forall|i: int|
                from <= i < rules.len() ==> !takes_domain((#[trigger] rules[i]).rule, d),
        },
    decreases rules.len() - from,
{
    if from < rules.len() && !takes_domain(rules[from].rule, d) {
        lemma_domain_scan(rules, d, from + 1);
    }
}

proof fn lemma_address_scan(rules: Seq<LoadedRuleView>, target: TargetView, from: int)
    requires
        0 <= from <= rules.len(),
    ensures
        match first_for_ip(rules, target, from) {
            Some(j) => from <= j < rules.len() && takes_address(rules[j], target) && forall|i: int|
                from <= i < j ==> !takes_address(#[trigger] rules[i], target),
            None => forall|i: int|
                from <= i < rules.len() ==> !takes_address(#[trigger] rules[i], target),
        },
    decreases rules.len() - from,
{
    if from < rules.len() && !takes_address(rules[from], target) {
        lemma_address_scan(rules, target, from + 1);
    }
}

proof fn lemma_final_scan(rules: Seq<LoadedRuleView>, from: int)
    requires
        0 <= from <= rules.len(),
    ensures
        match first_final(rules, from) {
            Some(j) => from <= j < rules.len() && rules[j].rule.kind == RuleKind::Final
                && forall|i: int|
                from <= i < j ==> (#[trigger] rules[i]).rule.kind != RuleKind::Final,
            None => forall|i: int|
                from <= i < rules.len() ==> (#[trigger] rules[i]).rule.kind != RuleKind::Final,
        },
    decreases rules.len() - from,
{
    if from < rules.len() && rules[from].rule.kind != RuleKind::Final {
        lemma_final_scan(rules, from + 1);
    }
}

// ---- Networks ----
/// A number in two parts: what stands in front, and its last `n` bits.
pub open spec fn in_parts(bits: nat, high: nat, n: nat, low: nat) -> bool {
    bits == high * pow2(n) + low && low < pow2(n)
}

/// An IPv4 address lies in a network exactly where what stands in front of the last bits is the same
/// in both, as many bits as the prefix is long.
pub proof fn networks_hold_what_begins_alike_v4(
    ip: Ipv4Addr,
    network: Ipv4Addr,
    prefix_len: nat,
    high: nat,
    low: nat,
    network_high: nat,
    network_low: nat,
)
    requires
        prefix_len <= 32,
        in_parts(ip.bits as nat, high, (32 - prefix_len) as nat, low),
        in_parts(network.bits as nat, network_high, (32 - prefix_len) as nat, network_low),
    ensures
        in_network(IpAddr::V4(ip), IpAddr::V4(network), prefix_len) <==> high == network_high,
{
    lemma_high(ip.bits as nat, high, (32 - prefix_len) as nat, low);
    lemma_high(network.bits as nat, network_high, (32 - prefix_len) as nat, network_low);
}

/// The same of IPv6.
pub proof fn networks_hold_what_begins_alike_v6(
    ip: Ipv6Addr,
    network: Ipv6Addr,
    prefix_len: nat,
    high: nat,
    low: nat,
    network_high: nat,
    network_low: nat,
)
    requires
        prefix_len <= 128,
        in_parts(ip.bits as nat, high, (128 - prefix_len) as nat, low),
        in_parts(network.bits as nat, network_high, (128 - prefix_len) as nat, network_low),
    ensures
        in_network(IpAddr::V6(ip), IpAddr::V6(network), prefix_len) <==> high == network_high,
{
    lemma_high(ip.bits as nat, high, (128 - prefix_len) as nat, low);
    lemma_high(network.bits as nat, network_high, (128 - prefix_len) as nat, network_low);
}

proof fn lemma_high(bits: nat, high: nat, n: nat, low: nat)
    requires
        in_parts(bits, high, n, low),
    ensures
        bits / pow2(n) == high,
{
    vstd::arithmetic::power2::lemma_pow2_pos(n);
    vstd::arithmetic::div_mod::lemma_fundamental_div_mod_converse(
        bits as int,
        pow2(n) as int,
        high as int,
        low as int,
    );
}

/// No network holds addresses of the other family, and none has a prefix longer than an address.
pub proof fn networks_keep_to_their_family(ip: IpAddr, network: IpAddr, prefix_len: nat)
    requires
        ip is V4 != network is V4 || prefix_len > (if network is V4 {
            32nat
        } else {
            128
        }),
    ensures
        !in_network(ip, network, prefix_len),
{
}

/// A network is read from an address, a slash and the length of its prefix, which is no longer than
/// the address.
pub proof fn networks_are_read(address: Seq<char>, ip: IpAddr, prefix_len: nat)
    requires
        ip_of(address) == Some(ip),
        !address.contains('/'),
    ensures
        network_spec(address + seq!['/'] + decimal(prefix_len)) == if prefix_len <= (if ip is V4 {
            32nat
        } else {
            128
        }) {
            Some((ip, prefix_len as u8))
        } else {
            None
        },
{
    let s = address + seq!['/'] + decimal(prefix_len);
    let at = address.len() as int;
    assert forall|i: int| 0 <= i < at implies s[i] != '/' by {
        assert(s[i] == address[i]);
    }
    assert(s[at] == '/');
    lemma_first_of(s, '/', 0, at);
    assert(s.subrange(0, at) =~= address);
    assert(s.subrange(at + 1, s.len() as int) =~= decimal(prefix_len));
    crate::net_text::lemma_decimal(prefix_len);
    assert(crate::text::without_plus(decimal(prefix_len)) == decimal(prefix_len)) by {
        assert(crate::text::is_digit(decimal(prefix_len)[0]));
    }
}

/// The same of an IPv4 address in dotted decimal notation.
pub proof fn dotted_networks_are_read(ip: Ipv4Addr, prefix_len: nat)
    requires
        prefix_len <= 32,
    ensures
        network_spec(dotted(ip.bits) + seq!['/'] + decimal(prefix_len)) == Some(
            (IpAddr::V4(ip), prefix_len as u8),
        ),
{
    crate::net_text::dotted_is_read_back(ip);
    let t = dotted(ip.bits);
    lemma_no_slash(ip.bits);
    networks_are_read(t, IpAddr::V4(ip), prefix_len);
}

proof fn lemma_no_slash(bits: u32)
    ensures
        !dotted(bits).contains('/'),
{
    let a = decimal((bits / 0x1_00_00_00) as nat);
    let b = decimal((bits / 0x1_00_00 % 0x1_00) as nat);
    let c = decimal((bits / 0x1_00 % 0x1_00) as nat);
    let d = decimal((bits % 0x1_00) as nat);
    crate::net_text::lemma_decimal((bits / 0x1_00_00_00) as nat);
    crate::net_text::lemma_decimal((bits / 0x1_00_00 % 0x1_00) as nat);
    crate::net_text::lemma_decimal((bits / 0x1_00 % 0x1_00) as nat);
    crate::net_text::lemma_decimal((bits % 0x1_00) as nat);
    let t = dotted(bits);
    assert forall|i: int| 0 <= i < t.len() implies t[i] != '/' by {
        let (p, q, r) = (
            a.len() as int + 1,
            a.len() as int + b.len() + 2,
            a.len() as int + b.len() + c.len() + 3,
        );
        if i < p - 1 {
            assert(t[i] == a[i]);
        } else if i == p - 1 {
        } else if i < q - 1 {
            assert(t[i] == b[i - p]);
        } else if i == q - 1 {
        } else if i < r - 1 {
            assert(t[i] == c[i - q]);
        } else if i == r - 1 {
        } else {
            assert(t[i] == d[i - r]);
        }
    }
}

/// Whether the rules take the country of an address: a rule on a country takes the addresses of that
/// country alone.
pub proof fn country_rules_take_their_country(
    rule: LoadedRuleView,
    ip: IpAddr,
    country: Option<Seq<char>>,
)
    requires
        rule.rule.kind == RuleKind::GeoIp,
    ensures
        takes_ip(rule, ip, country) <==> country == Some(rule.rule.content),
{
}

/// A rule on an IPv4 network, from its line: it takes an address that begins as the network does, as
/// far as the prefix goes, and no other; an IPv6 address it does not take.
pub proof fn network_rule_takes_its_network(
    network: Ipv4Addr,
    prefix_len: nat,
    action: Seq<char>,
    parameters: Seq<Seq<char>>,
    actions: Seq<(Seq<char>, u32)>,
    target: TargetView,
    high: nat,
    low: nat,
    network_high: nat,
    network_low: nat,
)
    requires
        prefix_len <= 32,
        !action.contains(','),
        no_commas(parameters),
        rule_of(actions, action) is Some,
        target.ip_v4 matches Some(ip) ==> in_parts(
            ip.bits as nat,
            high,
            (32 - prefix_len) as nat,
            low,
        ),
        in_parts(network.bits as nat, network_high, (32 - prefix_len) as nat, network_low),
    ensures
        matched_spec(
            rules_upto(
                seq![
                    rule_line(
                        "ip-cidr"@,
                        dotted(network.bits) + seq!['/'] + decimal(prefix_len),
                        action,
                        parameters,
                    ),
                ],
                actions,
                1,
            ),
            target,
        ) == if target.ip_v4 is Some && high == network_high {
            rule_of(actions, action)
        } else {
            None
        },
{
    let content = dotted(network.bits) + seq!['/'] + decimal(prefix_len);
    dotted_networks_are_read(network, prefix_len);
    lemma_network_without_commas(network.bits, prefix_len);
    assert(says("ip-cidr"@, RuleKind::IpCidr));
    lemma_one_rule("ip-cidr"@, RuleKind::IpCidr, content, action, parameters, actions);
    let rules = rules_upto(
        seq![rule_line("ip-cidr"@, content, action, parameters)],
        actions,
        1,
    );
    assert(rules.len() == 1);
    if let Some(ip) = target.ip_v4 {
        networks_hold_what_begins_alike_v4(
            ip,
            network,
            prefix_len,
            high,
            low,
            network_high,
            network_low,
        );
    }
    reveal_with_fuel(first_for_domain, 2);
    reveal_with_fuel(first_for_ip, 2);
    reveal_with_fuel(first_final, 2);
}

proof fn lemma_network_without_commas(bits: u32, prefix_len: nat)
    ensures
        !(dotted(bits) + seq!['/'] + decimal(prefix_len)).contains(','),
{
    let a = decimal((bits / 0x1_00_00_00) as nat);
    let b = decimal((bits / 0x1_00_00 % 0x1_00) as nat);
    let c = decimal((bits / 0x1_00 % 0x1_00) as nat);
    let d = decimal((bits % 0x1_00) as nat);
    let e = decimal(prefix_len);
    crate::net_text::lemma_decimal((bits / 0x1_00_00_00) as nat);
    crate::net_text::lemma_decimal((bits / 0x1_00_00 % 0x1_00) as nat);
    crate::net_text::lemma_decimal((bits / 0x1_00 % 0x1_00) as nat);
    crate::net_text::lemma_decimal((bits % 0x1_00) as nat);
    crate::net_text::lemma_decimal(prefix_len);
    let t = dotted(bits);
    let s = t + seq!['/'] + e;
    assert forall|i: int| 0 <= i < t.len() implies t[i] != ',' by {
        let (p, q, r) = (
            a.len() as int + 1,
            a.len() as int + b.len() + 2,
            a.len() as int + b.len() + c.len() + 3,
        );
        if i < p - 1 {
            assert(t[i] == a[i]);
        } else if i == p - 1 {
        } else if i < q - 1 {
            assert(t[i] == b[i - p]);
        } else if i == q - 1 {
        } else if i < r - 1 {
            assert(t[i] == c[i - q]);
        } else if i == r - 1 {
        } else {
            assert(t[i] == d[i - r]);
        }
    }
    assert forall|i: int| 0 <= i < s.len() implies s[i] != ',' by {
        if i < t.len() {
            assert(s[i] == t[i]);
        } else if i > t.len() {
            assert(s[i] == e[i - t.len() - 1]);
        }
    }
}

// ---- Flows ----
/// With a single rule for domains, a flow to a domain takes the action of the rule where the rule
/// means the domain, and the action for unmatched flows otherwise.
pub proof fn one_domain_rule_decides(
    d: &RuleDispatcher,
    r: TryMatchResult,
    src: SocketAddr,
    port: u16,
    word: Seq<char>,
    kind: RuleKind,
    content: Seq<char>,
    action: Seq<char>,
    parameters: Seq<Seq<char>>,
    actions: Seq<(Seq<char>, u32)>,
    domain: Seq<char>,
    country: Option<Seq<char>>,
)
    requires
        says(word, kind),
        kind == RuleKind::Domain || kind == RuleKind::DomainSuffix || kind
            == RuleKind::DomainKeyword,
        !content.contains(','),
        !action.contains(','),
        no_commas(parameters),
        rule_of(actions, action) matches Some(h) && h.0 < action_items(d.actions).len(),
        d.rule_set.views() == rules_upto(
            seq![rule_line(word, content, action, parameters)],
            actions,
            1,
        ),
        d.gives(r, plain_query(Some(src), HostView::DomainName(domain), Some(port)), country),
    ensures
        r == TryMatchResult::Matched(
            if domain_is_meant(word, content, domain) {
                action_items(d.actions)[(rule_of(actions, action)->Some_0).0 as int]
            } else {
                d.fallback
            },
        ),
{
    let query = plain_query(Some(src), HostView::DomainName(domain), Some(port));
    one_rule_takes_the_domains_that_it_means(
        word,
        kind,
        content,
        action,
        parameters,
        actions,
        target_of(query, country, country),
    );
}

/// A flow to a domain and a flow to an address are matched by just that: the domain, or the address
/// with its country. Where it comes from, and its port, do not count.
pub proof fn flows_are_matched_by_their_host(
    src: Option<SocketAddr>,
    host: HostView,
    port: Option<u16>,
    country: Option<Seq<char>>,
)
    ensures
        target_of(plain_query(src, host, port), country, country) == (TargetView {
            domain: match host {
                HostView::DomainName(name) => Some(name),
                HostView::Ip(_) => None,
            },
            ip_v4: match host {
                HostView::Ip(IpAddr::V4(ip)) => Some(ip),
                _ => None,
            },
            ip_v6: match host {
                HostView::Ip(IpAddr::V6(ip)) => Some(ip),
                _ => None,
            },
            country_v4: country,
            country_v6: country,
        }),
{
}

/// Once the addresses of a domain are known, the flow is matched by the domain and by both addresses,
/// each with its own country.
pub proof fn resolved_flows_are_matched_by_all(
    c: &AsyncMatchContext,
    country_v4: Option<Seq<char>>,
    country_v6: Option<Seq<char>>,
)
    ensures
        target_of(c.query_spec(), country_v4, country_v6) == (TargetView {
            domain: Some(c.dst_domain@),
            ip_v4: c.resolved_ipv4,
            ip_v6: c.resolved_ipv6,
            country_v4,
            country_v6,
        }),
{
}

/// The address that takes the place of a domain is one that was resolved, and there is one wherever
/// any was; an IPv4 address comes before an IPv6 address.
pub proof fn resolved_addresses_are_used(c: &AsyncMatchContext)
    ensures
        c.resolved_ipv4 matches Some(ip) ==> c.preferred() == Some(IpAddr::V4(ip)),
        c.resolved_ipv4 is None ==> (c.resolved_ipv6 matches Some(ip) ==> c.preferred() == Some(
            IpAddr::V6(ip),
        )),
        c.preferred() is None <==> c.resolved_ipv4 is None && c.resolved_ipv6 is None,
{
}

/// The addresses of a domain are resolved before it is matched exactly where no rule for domains takes
/// it and there is a rule for addresses that is not marked with `no-resolve`.
pub proof fn domains_are_resolved_where_it_counts(
    d: &RuleDispatcher,
    domain: Seq<char>,
)
    requires
        d.rule_set.first_resolving_rule_id is Some <==> first_resolving(
            d.rule_set.views(),
        ) is Some,
    ensures
        d.rule_set.resolves_domain(domain) <==> {
            let rules = d.rule_set.views();
            &&& forall|i: int|
                0 <= i < rules.len() ==> !takes_domain((#[trigger] rules[i]).rule, domain)
            &&& exists|i: int|
                0 <= i < rules.len() && !(#[trigger] rules[i]).rule.no_resolve && (
                rules[i].rule.kind == RuleKind::IpCidr || rules[i].rule.kind == RuleKind::Ip6Cidr
                    || rules[i].rule.kind == RuleKind::GeoIp)
        },
{
    let rules = d.rule_set.views();
    lemma_domain_scan(rules, domain, 0);
    marked_rules_need_no_addresses(rules);
    if first_resolving(rules) is Some {
        let i = choose|i: int|
            0 <= i < rules.len() && crate::rule_dispatcher::quanx::needs_addresses(
                (#[trigger] rules[i]).rule,
            );
        assert(!rules[i].rule.no_resolve);
    }
    if exists|i: int|
        0 <= i < rules.len() && !(#[trigger] rules[i]).rule.no_resolve && (rules[i].rule.kind
            == RuleKind::IpCidr || rules[i].rule.kind == RuleKind::Ip6Cidr || rules[i].rule.kind
            == RuleKind::GeoIp) {
        let i = choose|i: int|
            0 <= i < rules.len() && !(#[trigger] rules[i]).rule.no_resolve && (rules[i].rule.kind
                == RuleKind::IpCidr || rules[i].rule.kind == RuleKind::Ip6Cidr
                || rules[i].rule.kind == RuleKind::GeoIp);
        assert(crate::rule_dispatcher::quanx::needs_addresses(rules[i].rule));
    }
}

/// A flow that no rule takes goes the way for unmatched flows, one that a rule takes goes the way of
/// that rule, and one whose rule speaks of an action that is not there has no outbound.
pub proof fn flows_go_the_way_of_their_rule(
    d: &RuleDispatcher,
    r: TryMatchResult,
    query: MatchQueryView,
    country: Option<Seq<char>>,
)
    requires
        d.gives(r, query, country),
    ensures
        match rule_for(d.rule_set.views(), target_of(query, country, country)) {
            None => r == TryMatchResult::Matched(d.fallback),
            Some(i) => {
                let h = d.rule_set.views()[i].action.0 as int;
                if h < action_items(d.actions).len() {
                    r == TryMatchResult::Matched(action_items(d.actions)[h])
                } else {
                    r == TryMatchResult::Failed(FlowError::NoOutbound)
                }
            },
        },
{
}

} // verus!
