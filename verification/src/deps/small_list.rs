//! Short lists, from `smallvec`.
use smallvec::SmallVec;
use vstd::prelude::*;

verus! {

// ---- Lists of actions ----
/// A `SmallVec` of actions, each by its number. Only its items are spoken of.
#[verifier::external_body]
pub struct ActionSet {
    items: SmallVec<[u32; 8]>,
}

/// The items of a list of actions.
pub uninterp spec fn action_items(s: ActionSet) -> Seq<u32>;

/// Calls `SmallVec::new`: an empty list.
#[verifier::external_body]
pub(crate) fn action_set_new() -> (s: ActionSet)
    ensures
        action_items(s) == Seq::<u32>::empty(),
{
    ActionSet { items: SmallVec::new() }
}

/// Calls `SmallVec::push`: the item stands behind the others.
#[verifier::external_body]
pub(crate) fn action_set_push(s: &mut ActionSet, action: u32)
    requires
        action_items(*old(s)).len() < 0x1_0000,
    ensures
        action_items(*final(s)) == action_items(*old(s)).push(action),
{
    s.items.push(action)
}

/// Calls `SmallVec::len`: how many items there are.
#[verifier::external_body]
pub(crate) fn action_set_len(s: &ActionSet) -> (n: usize)
    ensures
        n == action_items(*s).len(),
{
    s.items.len()
}

/// Calls `get` on the slice of a `SmallVec`: the item at a place, if the list goes that far.
#[verifier::external_body]
pub(crate) fn action_set_get(s: &ActionSet, i: usize) -> (r: Option<u32>)
    ensures
        r == (if i < action_items(*s).len() {
            Some(action_items(*s)[i as int])
        } else {
            None
        }),
{
    s.items.get(i).copied()
}

// ---- Lists of countries ----
/// A `SmallVec` of the codes of countries, each with the number of its rule. Only its items are
/// spoken of.
#[verifier::external_body]
pub struct GeoIpRuleMap {
    items: SmallVec<[(String, u32); 2]>,
}

/// The items of a list of countries.
pub uninterp spec fn country_items(s: GeoIpRuleMap) -> Seq<(Seq<char>, u32)>;

/// Calls `SmallVec::new`: an empty list.
#[verifier::external_body]
pub(crate) fn country_map_new() -> (s: GeoIpRuleMap)
    ensures
        country_items(s) == Seq::<(Seq<char>, u32)>::empty(),
{
    GeoIpRuleMap { items: SmallVec::new() }
}

/// Calls `SmallVec::push`: the item stands behind the others.
#[verifier::external_body]
pub(crate) fn country_map_push(s: &mut GeoIpRuleMap, code: String, rule: u32)
    requires
        country_items(*old(s)).len() < 0x1_0000,
    ensures
        country_items(*final(s)) == country_items(*old(s)).push((code@, rule)),
{
    s.items.push((code, rule))
}

/// Calls `SmallVec::len`: how many items there are.
#[verifier::external_body]
pub(crate) fn country_map_len(s: &GeoIpRuleMap) -> (n: usize)
    ensures
        n == country_items(*s).len(),
{
    s.items.len()
}

/// Calls `get` on the slice of a `SmallVec`: the item at a place, if the list goes that far.
#[verifier::external_body]
pub(crate) fn country_map_get(s: &GeoIpRuleMap, i: usize) -> (r: Option<&(String, u32)>)
    ensures
        match r {
            Some(item) => i < country_items(*s).len() && (item.0@, item.1)
                == country_items(*s)[i as int],
            None => i >= country_items(*s).len(),
        },
{
    s.items.get(i)
}

} // verus!
