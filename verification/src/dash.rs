//! The concurrent collections of the `dashmap` crate that hold the URLs.
//!
//! Every item of this module that carries `external_body` is trusted: its
//! contract says what the `dashmap` method does to the contents, and Verus takes
//! it as given. All methods of `dashmap` work through a shared reference; the
//! functions here ask for an exclusive one wherever the contents change, so that
//! a collection never changes behind a shared reference.

use dashmap::{DashMap, DashSet};
use vstd::prelude::*;

verus! {

/// Declares `dashmap::DashMap`; nothing inside it is seen.
#[verifier::external_type_specification]
#[verifier::external_body]
#[verifier::reject_recursive_types(K)]
#[verifier::reject_recursive_types(V)]
#[verifier::reject_recursive_types(S)]
pub struct ExDashMap<K, V, S>(dashmap::DashMap<K, V, S>);

/// Declares `dashmap::DashSet`; nothing inside it is seen.
#[verifier::external_type_specification]
#[verifier::external_body]
#[verifier::reject_recursive_types(K)]
#[verifier::reject_recursive_types(S)]
pub struct ExDashSet<K, S>(dashmap::DashSet<K, S>);

/// What a `DashMap` from URLs to connector handles holds.
pub uninterp spec fn map_contents(m: DashMap<String, u64>) -> Map<Seq<char>, u64>;

/// What a `DashSet` of URLs holds.
pub uninterp spec fn set_contents(s: DashSet<String>) -> Set<Seq<char>>;

/// The texts that a list of strings holds, in order.
pub open spec fn texts(list: Seq<String>) -> Seq<Seq<char>> {
    list.map_values(|s: String| s@)
}

/// `DashMap::new` makes a map without entries.
#[verifier::external_body]
pub(crate) fn map_new() -> (m: DashMap<String, u64>)
    ensures
        (map_contents(m) == Map::<Seq<char>, u64>::empty()),
{
    DashMap::new()
}

/// `DashMap::insert` stores `value` under `key` and returns the value that was
/// stored there before, if any.
#[verifier::external_body]
pub(crate) fn map_insert(m: &mut DashMap<String, u64>, key: String, value: u64) -> (previous:
    Option<u64>)
    ensures
        map_contents(*final(m)) == map_contents(*old(m)).insert(key@, value),
        previous == (if map_contents(*old(m)).contains_key(key@) {
            Some(map_contents(*old(m))[key@])
        } else {
            None
        }),
{
    m.insert(key, value)
}

/// `DashMap::remove` takes out the entry stored under `key` and returns it, if
/// there is one.
#[verifier::external_body]
pub(crate) fn map_remove(m: &mut DashMap<String, u64>, key: &String) -> (entry: Option<
    (String, u64),
>)
    ensures
        map_contents(*final(m)) == map_contents(*old(m)).remove(key@),
        entry is Some <==> map_contents(*old(m)).contains_key(key@),
        entry matches Some(e) ==> e.0@ == key@ && e.1 == map_contents(*old(m))[key@],
{
    m.remove(key)
}

/// `DashMap::iter` visits every entry once; the keys are handed out in the order
/// of the visit, of which nothing is claimed.
#[verifier::external_body]
pub(crate) fn map_keys(m: &DashMap<String, u64>) -> (keys: Vec<String>)
    ensures
        texts(keys@).no_duplicates(),
        texts(keys@).to_set() == map_contents(*m).dom(),
{
    m.iter().map(|entry| entry.key().clone()).collect()
}

/// `DashSet::new` makes a set without items.
#[verifier::external_body]
pub(crate) fn set_new() -> (s: DashSet<String>)
    ensures
        set_contents(s) == Set::<Seq<char>>::empty(),
{
    DashSet::new()
}

/// `DashSet::insert` adds `item` and says whether it was missing before.
#[verifier::external_body]
pub(crate) fn set_insert(s: &mut DashSet<String>, item: String) -> (added: bool)
    ensures
        set_contents(*final(s)) == set_contents(*old(s)).insert(item@),
        added == !set_contents(*old(s)).contains(item@),
{
    s.insert(item)
}

/// `DashSet::remove` takes out `item` and returns it, if it is there.
#[verifier::external_body]
pub(crate) fn set_remove(s: &mut DashSet<String>, item: &String) -> (removed: Option<String>)
    ensures
        set_contents(*final(s)) == set_contents(*old(s)).remove(item@),
        removed is Some <==> set_contents(*old(s)).contains(item@),
        removed matches Some(r) ==> r@ == item@,
{
    s.remove(item)
}

/// `DashSet::contains` says whether `item` is in the set.
#[verifier::external_body]
pub(crate) fn set_contains(s: &DashSet<String>, item: &String) -> (found: bool)
    ensures
        found == set_contents(*s).contains(item@),
{
    s.contains(item)
}

/// `DashSet::clear` takes out every item.
#[verifier::external_body]
pub(crate) fn set_clear(s: &mut DashSet<String>)
    ensures
        set_contents(*final(s)) == Set::<Seq<char>>::empty(),
{
    s.clear()
}

/// `DashSet::iter` visits every item once; the items are handed out in the order
/// of the visit, of which nothing is claimed.
#[verifier::external_body]
pub(crate) fn set_items(s: &DashSet<String>) -> (items: Vec<String>)
    ensures
        texts(items@).no_duplicates(),
        texts(items@).to_set() == set_contents(*s),
{
    s.iter().map(|item| item.key().clone()).collect()
}

} // verus!
