//! Rules by the country of an address.
use vstd::prelude::*;

use crate::deps::small_list::country_items;
use crate::deps::small_list::country_map_get;
use crate::deps::small_list::country_map_len;
use crate::deps::small_list::country_map_new;
use crate::deps::small_list::country_map_push;
use crate::deps::small_list::GeoIpRuleMap;
use crate::text::same_text;

verus! {

/// The number of a rule.
#[derive(Clone, Copy, PartialEq, Eq, Structural, Debug)]
pub struct RuleHandle(pub u32);

/// The rule of the first item with a code.
pub open spec fn rule_of(items: Seq<(Seq<char>, u32)>, code: Seq<char>) -> Option<RuleHandle>
    decreases items.len(),
{
    if items.len() == 0 {
        None
    } else if items[0].0 == code {
        Some(RuleHandle(items[0].1))
    } else {
        rule_of(items.drop_first(), code)
    }
}

/// The rules for countries, by their ISO codes.
pub struct GeoIpSet {
    pub iso_code_rule: GeoIpRuleMap,
}

impl GeoIpSet {
    pub fn new() -> (r: Self)
        ensures
            country_items(r.iso_code_rule) == Seq::<(Seq<char>, u32)>::empty(),
    {
        GeoIpSet { iso_code_rule: country_map_new() }
    }

    /// Adds a rule for a country. There is room for 65536.
    pub fn insert(&mut self, code: String, rule: RuleHandle) -> (r: bool)
        ensures
            r == (country_items(old(self).iso_code_rule).len() < 0x1_0000),
            country_items(final(self).iso_code_rule) == (if r {
                country_items(old(self).iso_code_rule).push((code@, rule.0))
            } else {
                country_items(old(self).iso_code_rule)
            }),
    {
        if country_map_len(&self.iso_code_rule) >= 0x1_0000 {
            return false;
        }
        country_map_push(&mut self.iso_code_rule, code, rule.0);
        true
    }

    /// The rule for an address. `iso_code` is the code of the country that the address lies in,
    /// where it is known.
    pub fn query(&self, iso_code: Option<&str>) -> (r: Option<RuleHandle>)
        ensures
            r == (match iso_code {
                Some(code) => rule_of(country_items(self.iso_code_rule), code@),
                None => None,
            }),
    {
        match iso_code {
            Some(code) => {
                let n: usize = country_map_len(&self.iso_code_rule);
                let ghost all = country_items(self.iso_code_rule);
                let mut i: usize = 0;
                assert(all.skip(0) =~= all);
                while i < n
                    invariant
                        i <= n,
                        iso_code == Some(code),
                        all == country_items(self.iso_code_rule),
                        n == all.len(),
                        rule_of(all, code@) == rule_of(all.skip(i as int), code@),
                    decreases n - i,
                {
                    assert(all.skip(i as int).drop_first() =~= all.skip(i + 1));
                    if let Some(item) = country_map_get(&self.iso_code_rule, i) {
                        if same_text(item.0.as_str(), code) {
                            return Some(RuleHandle(item.1));
                        }
                    }
                    i += 1;
                }
                None
            },
            None => None,
        }
    }
}

// ---- Laws ----
/// A rule for a country is found by its code once it was added, unless there is one for that country
/// already: then that one stays. Rules for other countries are found as before, and an address in an
/// unknown country has none.
pub proof fn first_rule_for_a_country_counts(
    s: &mut GeoIpSet,
    code: String,
    rule: RuleHandle,
    added: bool,
    asked: &str,
    before: Option<RuleHandle>,
    after: Option<RuleHandle>,
    unknown: Option<RuleHandle>,
)
    requires
        call_ensures(GeoIpSet::query, (&*old(s), Some(asked)), before),
        call_ensures(GeoIpSet::insert, (s, code, rule), added),
        call_ensures(GeoIpSet::query, (&*final(s), Some(asked)), after),
        call_ensures(GeoIpSet::query, (&*final(s), None), unknown),
    ensures
        unknown is None,
        added <==> country_items(old(s).iso_code_rule).len() < 65536,
        before is Some ==> after == before,
        before is None && asked@ != code@ ==> after is None,
        before is None && asked@ == code@ && added ==> after == Some(rule),
{
    lemma_rule_of_push(country_items(old(s).iso_code_rule), (code@, rule.0), asked@);
}

proof fn lemma_rule_of_push(items: Seq<(Seq<char>, u32)>, item: (Seq<char>, u32), code: Seq<char>)
    ensures
        rule_of(items.push(item), code) == (match rule_of(items, code) {
            Some(h) => Some(h),
            None => if item.0 == code {
                Some(RuleHandle(item.1))
            } else {
                None
            },
        }),
    decreases items.len(),
{
    if items.len() == 0 {
        assert(items.push(item).drop_first() =~= Seq::<(Seq<char>, u32)>::empty());
        assert(items.push(item)[0] == item);
    } else {
        assert(items.push(item).drop_first() =~= items.drop_first().push(item));
        assert(items.push(item)[0] == items[0]);
        lemma_rule_of_push(items.drop_first(), item, code);
    }
}

/// A set that is new has no rule for any country.
pub proof fn new_sets_have_no_rules(s: GeoIpSet, asked: Option<&str>, r: Option<RuleHandle>)
    requires
        call_ensures(GeoIpSet::new, (), s),
        call_ensures(GeoIpSet::query, (&s, asked), r),
    ensures
        r is None,
{
}

} // verus!
