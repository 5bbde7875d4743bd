//! Lists of domains.
use vstd::prelude::*;

use crate::config::AppConfig;
use crate::text::chars_of;
use crate::text::ends_with;
use crate::text::has_suffix;
use crate::text::has_text;
use crate::text::lemma_texts_push;
use crate::text::lines_of;
use crate::text::listed;
use crate::text::listed_lines;
use crate::text::lowercase;
use crate::text::same_text;
use crate::text::str_to_lowercase;
use crate::text::texts;

verus! {

/// A set of domains, in the order in which they came.
#[derive(Debug)]
pub struct DomainSet {
    pub names: Vec<String>,
}

/// What a list holds when a text is added that may be there already.
pub open spec fn added(s: Seq<Seq<char>>, t: Seq<char>) -> Seq<Seq<char>> {
    if s.contains(t) {
        s
    } else {
        s.push(t)
    }
}

/// The texts in lower case, each where it comes first.
pub open spec fn lowered(s: Seq<Seq<char>>) -> Seq<Seq<char>>
    decreases s.len(),
{
    if s.len() == 0 {
        Seq::empty()
    } else {
        added(lowered(s.drop_last()), lowercase(s.last()))
    }
}

impl DomainSet {
    pub open spec fn list(&self) -> Seq<Seq<char>> {
        texts(self.names@)
    }

    /// No domain stands in the list twice.
    pub open spec fn wf(&self) -> bool {
        self.list().no_duplicates()
    }

    pub fn new() -> (r: Self)
        ensures
            r.list() == Seq::<Seq<char>>::empty(),
            r.wf(),
    {
        let r = DomainSet { names: Vec::new() };
        assert(r.list() =~= Seq::<Seq<char>>::empty());
        r
    }

    pub fn insert(&mut self, name: String)
        requires
            old(self).wf(),
        ensures
            final(self).list() == added(old(self).list(), name@),
            final(self).wf(),
    {
        if !has_text(&self.names, name.as_str()) {
            proof {
                lemma_texts_push(self.names@, name);
            }
            self.names.push(name);
        }
    }

    /// The texts in lower case, each once.
    pub fn of(names: &Vec<String>) -> (r: Self)
        ensures
            r.list() == lowered(texts(names@)),
            r.wf(),
    {
        let mut r = DomainSet::new();
        let mut i: usize = 0;
        assert(texts(names@).take(0) =~= Seq::<Seq<char>>::empty());
        while i < names.len()
            invariant
                i <= names@.len(),
                r.list() == lowered(texts(names@).take(i as int)),
                r.wf(),
            decreases names@.len() - i,
        {
            assert(texts(names@).take(i + 1).drop_last() =~= texts(names@).take(i as int));
            r.insert(str_to_lowercase(names[i].as_str()));
            i += 1;
        }
        assert(texts(names@).take(i as int) =~= texts(names@));
        r
    }
}

/// Whether a domain is `domain` or lies below it.
pub open spec fn is_within(host: Seq<char>, domain: Seq<char>) -> bool {
    host == domain || ends_with(host, seq!['.'] + domain)
}

/// Whether a host, whatever its case, is one of the domains or lies below one.
pub open spec fn is_listed(host: Seq<char>, domains: Seq<Seq<char>>) -> bool {
    exists|i: int| 0 <= i < domains.len() && is_within(lowercase(host), #[trigger] domains[i])
}

/// Whether a host, whatever its case, is one of the domains or lies below one.
pub fn check_domain(host: &str, domains: &DomainSet) -> (r: bool)
    ensures
        r == is_listed(host@, domains.list()),
{
    let lower = str_to_lowercase(host);
    let chars: Vec<char> = chars_of(lower.as_str());
    let mut i: usize = 0;
    while i < domains.names.len()
        invariant
            i <= domains.names@.len(),
            chars@ == lower@,
            lower@ == lowercase(host@),
            forall|j: int|
                0 <= j < i ==> !is_within(lower@, #[trigger] domains.list()[j]),
        decreases domains.names@.len() - i,
    {
        let name = domains.names[i].as_str();
        let mut dotted: Vec<char> = Vec::new();
        dotted.push('.');
        let mut rest: Vec<char> = chars_of(name);
        dotted.append(&mut rest);
        assert(dotted@ =~= seq!['.'] + domains.list()[i as int]);
        if same_text(lower.as_str(), name) || has_suffix(chars.as_slice(), dotted.as_slice()) {
            assert(is_within(lower@, domains.list()[i as int]));
            return true;
        }
        i += 1;
    }
    false
}

/// The domains that are reached directly: those of the configuration, or, where it has none, those
/// that the file lists.
pub open spec fn direct_domains(config: AppConfig, file: Option<Seq<char>>) -> Seq<Seq<char>> {
    if config.domains.direct@.len() > 0 {
        lowered(texts(config.domains.direct@))
    } else {
        match file {
            Some(content) => lowered(listed(lines_of(content))),
            None => Seq::empty(),
        }
    }
}

/// The domains that are reached directly. `file` is what `direct_domains.txt` holds, where it can
/// be read.
pub fn load_direct_domains(app_config: &AppConfig, file: Option<&str>) -> (r: DomainSet)
    ensures
        r.list() == direct_domains(
            *app_config,
            match file {
                Some(content) => Some(content@),
                None => None,
            },
        ),
        r.wf(),
{
    if app_config.domains.direct.len() > 0 {
        return DomainSet::of(&app_config.domains.direct);
    }
    match file {
        Some(content) => DomainSet::of(&listed_lines(content)),
        None => DomainSet::new(),
    }
}

/// The domains that are reached through the proxy.
pub fn load_proxy_domains(app_config: &AppConfig) -> (r: DomainSet)
    ensures
        r.list() == lowered(texts(app_config.domains.proxy@)),
        r.wf(),
{
    DomainSet::of(&app_config.domains.proxy)
}

/// A domain is within itself, and what is added in front of a dot stays within it.
pub proof fn subdomains_are_within(domain: Seq<char>, label: Seq<char>)
    ensures
        is_within(domain, domain),
        is_within(label + seq!['.'] + domain, domain),
{
    let host = label + seq!['.'] + domain;
    let t = seq!['.'] + domain;
    assert(host.subrange(host.len() - t.len(), host.len() as int) =~= t);
}

/// Every domain of a configured list, in lower case, is in the set that is made of it, and the
/// set holds nothing else.
pub proof fn lowered_holds(s: Seq<Seq<char>>, t: Seq<char>)
    ensures
        lowered(s).contains(t) <==> exists|i: int| 0 <= i < s.len() && lowercase(#[trigger] s[i]) == t,
        lowered(s).no_duplicates(),
    decreases s.len(),
{
    if s.len() > 0 {
        let d = s.drop_last();
        let n = lowercase(s.last());
        lowered_holds(d, t);
        let l = lowered(d);
        if !l.contains(n) {
            assert(l.push(n)[l.len() as int] == n);
            if l.contains(t) {
                let k = choose|k: int| 0 <= k < l.len() && l[k] == t;
                assert(l.push(n)[k] == t);
            }
        }
        if l.contains(t) {
            let i = choose|i: int| 0 <= i < d.len() && lowercase(#[trigger] d[i]) == t;
            assert(s[i] == d[i]);
        }
        if exists|i: int| 0 <= i < s.len() && lowercase(#[trigger] s[i]) == t {
            let i = choose|i: int| 0 <= i < s.len() && lowercase(#[trigger] s[i]) == t;
            if i < d.len() {
                assert(d[i] == s[i]);
            }
        }
        assert(s.last() == s[s.len() - 1]);
    }
}

/// A host is listed exactly where it is, in lower case, one of the domains or one of them behind a dot.
pub proof fn listed_hosts_lie_below(host: &str, domains: &DomainSet, r: bool)
    requires
        call_ensures(check_domain, (host, domains), r),
    ensures
        r <==> exists|i: int, label: Option<Seq<char>>|
            0 <= i < domains.names@.len() && lowercase(host@) == #[trigger] below_domain(
                label,
                domains.names@[i]@,
            ),
{
    let list = domains.list();
    let h = lowercase(host@);
    if r {
        let i = choose|i: int| 0 <= i < list.len() && is_within(h, #[trigger] list[i]);
        let d = list[i];
        assert(d == domains.names@[i]@);
        if h == d {
            assert(h == below_domain(None, d));
        } else {
            let label = h.take(h.len() - d.len() - 1);
            let t = seq!['.'] + d;
            let at = h.len() - t.len();
            assert(h =~= h.subrange(0, at) + h.subrange(at, at + t.len()));
            assert(h.subrange(at, at + t.len()) == t);
            assert(h =~= label + seq!['.'] + d);
            assert(h == below_domain(Some(label), d));
        }
    }
    if exists|i: int, label: Option<Seq<char>>|
        0 <= i < domains.names@.len() && h == #[trigger] below_domain(label, domains.names@[i]@) {
        let (i, label) = choose|i: int, label: Option<Seq<char>>|
            0 <= i < domains.names@.len() && h == #[trigger] below_domain(
                label,
                domains.names@[i]@,
            );
        assert(list[i] == domains.names@[i]@);
        if let Some(l) = label {
            subdomains_are_within(list[i], l);
        }
        assert(is_within(h, list[i]));
    }
}

/// A domain, or what lies below it by a label.
pub open spec fn below_domain(label: Option<Seq<char>>, domain: Seq<char>) -> Seq<char> {
    match label {
        Some(l) => l + seq!['.'] + domain,
        None => domain,
    }
}

/// The configured domains are loaded, in lower case, and the file counts only where there are none; the
/// domains for the proxy come from the configuration alone.
pub proof fn configured_domains_come_first(
    config: &AppConfig,
    file: Option<&str>,
    direct: DomainSet,
    proxy: DomainSet,
    t: Seq<char>,
)
    requires
        call_ensures(load_direct_domains, (config, file), direct),
        call_ensures(load_proxy_domains, (config,), proxy),
    ensures
        config.domains.direct@.len() > 0 ==> (direct.list().contains(t) <==> exists|i: int|
            0 <= i < config.domains.direct@.len() && t == lowercase(
                #[trigger] config.domains.direct@[i]@,
            )),
        config.domains.direct@.len() == 0 ==> (match file {
            Some(content) => direct.list().contains(t) <==> exists|i: int|
                0 <= i < listed(lines_of(content@)).len() && t == lowercase(
                    #[trigger] listed(lines_of(content@))[i],
                ),
            None => direct.list().len() == 0,
        }),
        proxy.list().contains(t) <==> exists|i: int|
            0 <= i < config.domains.proxy@.len() && t == lowercase(
                #[trigger] config.domains.proxy@[i]@,
            ),
{
    let p = texts(config.domains.proxy@);
    lowered_holds(p, t);
    assert forall|i: int| 0 <= i < p.len() implies #[trigger] p[i] == config.domains.proxy@[i]@ by {
    }
    if proxy.list().contains(t) {
        let i = choose|i: int| 0 <= i < p.len() && lowercase(#[trigger] p[i]) == t;
        assert(t == lowercase(config.domains.proxy@[i]@));
    }
    if exists|i: int|
        0 <= i < config.domains.proxy@.len() && t == lowercase(#[trigger] config.domains.proxy@[i]@) {
        let i = choose|i: int|
            0 <= i < config.domains.proxy@.len() && t == lowercase(
                #[trigger] config.domains.proxy@[i]@,
            );
        assert(lowercase(p[i]) == t);
    }
    if config.domains.direct@.len() > 0 {
        let d = texts(config.domains.direct@);
        lowered_holds(d, t);
        if direct.list().contains(t) {
            let i = choose|i: int| 0 <= i < d.len() && lowercase(#[trigger] d[i]) == t;
            assert(t == lowercase(config.domains.direct@[i]@));
        }
        if exists|i: int|
            0 <= i < config.domains.direct@.len() && t == lowercase(
                #[trigger] config.domains.direct@[i]@,
            ) {
            let i = choose|i: int|
                0 <= i < config.domains.direct@.len() && t == lowercase(
                    #[trigger] config.domains.direct@[i]@,
                );
            assert(lowercase(d[i]) == t);
        }
    } else if let Some(content) = file {
        lowered_holds(listed(lines_of(content@)), t);
    }
}

} // verus!
