//! Text in ascending order.

use crate::dash;
use crate::text;
use vstd::prelude::*;

verus! {

/// `a` and `b` agree up to position `k`, and there `a` ends or has the smaller
/// character.
pub open spec fn smaller_from(a: Seq<char>, b: Seq<char>, k: int) -> bool {
    &&& 0 <= k <= a.len()
    &&& k < b.len()
    &&& forall|i: int| 0 <= i < k ==> a[i] == b[i]
    &&& k == a.len() || a[k] < b[k]
}

/// `a` comes before `b`, by the order of their first different characters.
pub open spec fn precedes(a: Seq<char>, b: Seq<char>) -> bool {
    exists|k: int| smaller_from(a, b, k)
}

/// The texts of `list` ascend, and so are all different.
pub open spec fn ascends(list: Seq<Seq<char>>) -> bool {
    forall|i: int, j: int| 0 <= i < j < list.len() ==> #[trigger] precedes(list[i], list[j])
}

/// `list` is the ascending list of the texts in `set`.
pub open spec fn is_listing(list: Seq<Seq<char>>, set: Set<Seq<char>>) -> bool {
    ascends(list) && list.to_set() == set
}

/// The ascending list of the texts in `set`, which must be finite.
pub open spec fn listing(set: Set<Seq<char>>) -> Seq<Seq<char>> {
    choose|list: Seq<Seq<char>>| is_listing(list, set)
}

/// No text comes before itself, nor both before and after another.
pub proof fn lemma_precedes_asymmetric(a: Seq<char>, b: Seq<char>)
    requires
        precedes(a, b),
    ensures
        !precedes(b, a),
        a != b,
{
    let k = choose|k: int| smaller_from(a, b, k);
    if precedes(b, a) {
        let m = choose|m: int| smaller_from(b, a, m);
        assert(!(k < m) && !(m < k));
    }
}

/// An ascending list holds no text twice.
pub proof fn lemma_ascends_no_duplicates(list: Seq<Seq<char>>)
    requires
        ascends(list),
    ensures
        list.no_duplicates(),
{
    assert forall|i: int, j: int| 0 <= i < list.len() && 0 <= j < list.len() && i != j implies
        list[i] != list[j] by {
        if i < j {
            assert(precedes(list[i], list[j]));
            lemma_precedes_asymmetric(list[i], list[j]);
        } else {
            assert(precedes(list[j], list[i]));
            lemma_precedes_asymmetric(list[j], list[i]);
        }
    }
}

/// The order is transitive.
pub proof fn lemma_precedes_transitive(a: Seq<char>, b: Seq<char>, c: Seq<char>)
    requires
        precedes(a, b),
        precedes(b, c),
    ensures
        precedes(a, c),
{
    let k = choose|k: int| smaller_from(a, b, k);
    let m = choose|m: int| smaller_from(b, c, m);
    assert(smaller_from(a, c, if k < m { k } else { m }));
}

/// Of two different texts one comes before the other.
pub proof fn lemma_precedes_total(a: Seq<char>, b: Seq<char>)
    ensures
        a == b || precedes(a, b) || precedes(b, a),
{
    lemma_precedes_from(a, b, 0);
}

proof fn lemma_precedes_from(a: Seq<char>, b: Seq<char>, k: int)
    requires
        0 <= k <= a.len(),
        k <= b.len(),
        forall|i: int| 0 <= i < k ==> a[i] == b[i],
    ensures
        a == b || precedes(a, b) || precedes(b, a),
    decreases a.len() - k,
{
    if k < a.len() && k < b.len() && a[k] == b[k] {
        lemma_precedes_from(a, b, k + 1);
    } else if k == a.len() && k == b.len() {
        assert(a =~= b);
    } else if k == a.len() || (k < b.len() && a[k] < b[k]) {
        assert(smaller_from(a, b, k));
    } else {
        assert(smaller_from(b, a, k));
    }
}

/// Every finite set of texts has an ascending list.
pub proof fn lemma_listing_exists(set: Set<Seq<char>>)
    requires
        set.finite(),
    ensures
        is_listing(listing(set), set),
    decreases set.len(),
{
    if set.len() == 0 {
        let list = Seq::<Seq<char>>::empty();
        assert(list.to_set() =~= set);
        assert(is_listing(list, set));
    } else {
        let item = set.choose();
        let rest = set.remove(item);
        lemma_listing_exists(rest);
        let list = listing(rest);
        assert(!list.contains(item)) by {
            assert(list.contains(item) ==> list.to_set().contains(item));
        }
        let at = lemma_insertion_point(list, item, 0);
        lemma_insert_listing(list, at, item);
        assert(rest.insert(item) =~= set);
        assert(is_listing(list.insert(at, item), set));
    }
}

proof fn lemma_insertion_point(list: Seq<Seq<char>>, item: Seq<char>, from: int) -> (at: int)
    requires
        0 <= from <= list.len(),
        !list.contains(item),
        forall|j: int| 0 <= j < from ==> precedes(#[trigger] list[j], item),
    ensures
        0 <= at <= list.len(),
        forall|j: int| 0 <= j < at ==> precedes(#[trigger] list[j], item),
        at < list.len() ==> precedes(item, list[at]),
    decreases list.len() - from,
{
    if from < list.len() {
        lemma_precedes_total(list[from], item);
        assert(list.contains(list[from]));
    }
    if from < list.len() && precedes(list[from], item) {
        lemma_insertion_point(list, item, from + 1)
    } else {
        from
    }
}

/// There is only one ascending list of the texts in a set.
pub proof fn lemma_listing_unique(list: Seq<Seq<char>>, other: Seq<Seq<char>>, set: Set<Seq<char>>)
    requires
        is_listing(list, set),
        is_listing(other, set),
    ensures
        list == other,
    decreases list.len(),
{
    if list.len() == 0 {
        if other.len() > 0 {
            assert(other.to_set().contains(other[0]));
            assert(list.contains(other[0]));
        }
        assert(list =~= other);
    } else {
        assert(list.to_set().contains(list.last()));
        assert(other.to_set().contains(list.last()));
        assert(other.len() > 0);
        lemma_last_is_last(list, other, set);
        lemma_last_is_last(other, list, set);
        if list.last() != other.last() {
            lemma_precedes_asymmetric(list.last(), other.last());
        }
        lemma_drop_last_listing(list, set);
        lemma_drop_last_listing(other, set);
        lemma_listing_unique(list.drop_last(), other.drop_last(), set.remove(list.last()));
        assert(list =~= list.drop_last().push(list.last()));
        assert(other =~= other.drop_last().push(other.last()));
    }
}

proof fn lemma_last_is_last(list: Seq<Seq<char>>, other: Seq<Seq<char>>, set: Set<Seq<char>>)
    requires
        is_listing(list, set),
        is_listing(other, set),
        list.len() > 0,
        other.len() > 0,
    ensures
        list.last() == other.last() || precedes(list.last(), other.last()),
{
    assert(list.to_set().contains(list.last()));
    assert(other.contains(list.last()));
    let i = choose|i: int| 0 <= i < other.len() && other[i] == list.last();
    if i < other.len() - 1 {
        assert(precedes(other[i], other[other.len() - 1]));
    }
}

proof fn lemma_drop_last_listing(list: Seq<Seq<char>>, set: Set<Seq<char>>)
    requires
        is_listing(list, set),
        list.len() > 0,
    ensures
        is_listing(list.drop_last(), set.remove(list.last())),
{
    let shorter = list.drop_last();
    assert forall|i: int, j: int| 0 <= i < j < shorter.len() implies #[trigger] precedes(
        shorter[i],
        shorter[j],
    ) by {
        assert(precedes(list[i], list[j]));
    }
    assert forall|t: Seq<char>| shorter.to_set().contains(t) <==> #[trigger] set.remove(
        list.last(),
    ).contains(t) by {
        if shorter.to_set().contains(t) {
            let i = choose|i: int| 0 <= i < shorter.len() && shorter[i] == t;
            assert(list[i] == t);
            assert(list.to_set().contains(t));
            assert(precedes(list[i], list[list.len() - 1]));
            lemma_precedes_asymmetric(t, list.last());
        }
        if set.remove(list.last()).contains(t) {
            assert(list.to_set().contains(t));
            let i = choose|i: int| 0 <= i < list.len() && list[i] == t;
            assert(shorter[i] == t);
        }
    }
    assert(shorter.to_set() =~= set.remove(list.last()));
}

/// An ascending list of the texts in a set is `listing` of that set.
pub proof fn lemma_is_listing(list: Seq<Seq<char>>, set: Set<Seq<char>>)
    requires
        is_listing(list, set),
    ensures
        listing(set) == list,
{
    lemma_listing_unique(list, listing(set), set);
}

/// How two texts are ordered.
enum Comparison {
    Before,
    Same,
    After,
}

fn compare_texts(a: &str, b: &str) -> (comparison: Comparison)
    ensures
        match comparison {
            Comparison::Before => precedes(a@, b@),
            Comparison::Same => a@ == b@,
            Comparison::After => precedes(b@, a@),
        },
{
    let left = text::chars_of(a);
    let right = text::chars_of(b);
    let mut k: usize = 0;
    while k < left.len() && k < right.len()
        invariant
            left@ == a@,
            right@ == b@,
            k <= left.len(),
            k <= right.len(),
            forall|i: int| 0 <= i < k ==> a@[i] == b@[i],
        decreases left.len() - k,
    {
        if left[k] != right[k] {
            if left[k] < right[k] {
                assert(smaller_from(a@, b@, k as int));
                return Comparison::Before;
            }
            assert(smaller_from(b@, a@, k as int));
            return Comparison::After;
        }
        k += 1;
    }
    if left.len() < right.len() {
        assert(smaller_from(a@, b@, k as int));
        Comparison::Before
    } else if right.len() < left.len() {
        assert(smaller_from(b@, a@, k as int));
        Comparison::After
    } else {
        assert(a@ =~= b@);
        Comparison::Same
    }
}

proof fn lemma_insert_listing(list: Seq<Seq<char>>, at: int, item: Seq<char>)
    requires
        ascends(list),
        0 <= at <= list.len(),
        forall|j: int| 0 <= j < at ==> precedes(#[trigger] list[j], item),
        at < list.len() ==> precedes(item, list[at]),
    ensures
        is_listing(list.insert(at, item), list.to_set().insert(item)),
{
    let longer = list.insert(at, item);
    assert forall|j: int| at <= j < list.len() implies precedes(item, #[trigger] list[j]) by {
        if at < j {
            assert(precedes(list[at], list[j]));
            lemma_precedes_transitive(item, list[at], list[j]);
        }
    }
    assert forall|i: int, j: int| 0 <= i < j < longer.len() implies #[trigger] precedes(
        longer[i],
        longer[j],
    ) by {
        if i != at && j != at {
            assert(precedes(
                list[if i < at { i } else { i - 1 }],
                list[if j < at { j } else { j - 1 }],
            ));
        }
    }
    assert forall|t: Seq<char>| longer.to_set().contains(t) <==> #[trigger] list.to_set().insert(
        item,
    ).contains(t) by {
        if longer.to_set().contains(t) {
            let i = choose|i: int| 0 <= i < longer.len() && longer[i] == t;
            if i != at {
                assert(list[if i < at { i } else { i - 1 }] == t);
            }
        }
        if list.to_set().contains(t) {
            let i = choose|i: int| 0 <= i < list.len() && list[i] == t;
            assert(longer[if i < at { i } else { i + 1 }] == t);
        }
        assert(longer[at] == item);
    }
    assert(longer.to_set() =~= list.to_set().insert(item));
}

/// Puts a text at its place in an ascending list, unless it is there already.
fn insert_ascending(list: &mut Vec<String>, item: &String)
    requires
        ascends(dash::texts(old(list)@)),
    ensures
        is_listing(dash::texts(final(list)@), dash::texts(old(list)@).to_set().insert(item@)),
{
    let ghost before = dash::texts(list@);
    let mut i: usize = 0;
    while i < list.len()
        invariant
            i <= list.len(),
            before == dash::texts(list@),
            ascends(before),
            forall|j: int| 0 <= j < i ==> precedes(#[trigger] before[j], item@),
            list@ == old(list)@,
        ensures
            i < list.len() ==> precedes(item@, before[i as int]),
        decreases list.len() - i,
    {
        match compare_texts(list[i].as_str(), item.as_str()) {
            Comparison::Before => {
                i += 1;
            },
            Comparison::Same => {
                assert(before[i as int] == item@);
                assert(before.to_set().contains(item@));
                assert(before.to_set() =~= before.to_set().insert(item@));
                return ;
            },
            Comparison::After => {
                assert(before[i as int] == list@[i as int]@);
                break ;
            },
        }
    }
    list.insert(i, item.clone());
    assert(dash::texts(list@) =~= before.insert(i as int, item@));
    proof {
        lemma_insert_listing(before, i as int, item@);
    }
}

/// One more text of a list makes one more text of its set.
pub proof fn lemma_take_to_set(list: Seq<Seq<char>>, i: int)
    requires
        0 <= i < list.len(),
    ensures
        list.take(i + 1).to_set() == list.take(i).to_set().insert(list[i]),
        list.no_duplicates() ==> !list.take(i).to_set().contains(list[i]),
{
    let shorter = list.take(i);
    let longer = list.take(i + 1);
    assert forall|t: Seq<char>| longer.to_set().contains(t) <==> #[trigger] shorter.to_set().insert(
        list[i],
    ).contains(t) by {
        if shorter.to_set().contains(t) {
            let k = choose|k: int| 0 <= k < shorter.len() && shorter[k] == t;
            assert(longer[k] == t);
        }
        if longer.to_set().contains(t) && t != list[i] {
            let k = choose|k: int| 0 <= k < longer.len() && longer[k] == t;
            assert(shorter[k] == t);
        }
        assert(longer[i] == list[i]);
    }
    assert(longer.to_set() =~= shorter.to_set().insert(list[i]));
}

/// An ascending list that holds some of the first texts of another can take the next one.
pub proof fn lemma_push_next(some: Seq<Seq<char>>, all: Seq<Seq<char>>, i: int)
    requires
        ascends(all),
        ascends(some),
        0 <= i < all.len(),
        some.to_set().subset_of(all.take(i).to_set()),
    ensures
        is_listing(some.push(all[i]), some.to_set().insert(all[i])),
{
    assert forall|j: int| 0 <= j < some.len() implies precedes(#[trigger] some[j], all[i]) by {
        assert(some.to_set().contains(some[j]));
        assert(all.take(i).to_set().contains(some[j]));
        let k = choose|k: int| 0 <= k < i && all.take(i)[k] == some[j];
        assert(precedes(all[k], all[i]));
    }
    lemma_insert_listing(some, some.len() as int, all[i]);
    assert(some.insert(some.len() as int, all[i]) =~= some.push(all[i]));
}

/// The ascending list of the texts in `list`, without repetitions.
pub fn sort_texts(list: &Vec<String>) -> (sorted: Vec<String>)
    ensures
        is_listing(dash::texts(sorted@), dash::texts(list@).to_set()),
        dash::texts(sorted@) == listing(dash::texts(list@).to_set()),
{
    let mut sorted: Vec<String> = Vec::new();
    let ghost all = dash::texts(list@);
    let mut i: usize = 0;
    assert(dash::texts(sorted@).to_set() =~= all.take(0).to_set());
    while i < list.len()
        invariant
            i <= list.len(),
            all == dash::texts(list@),
            is_listing(dash::texts(sorted@), all.take(i as int).to_set()),
        decreases list.len() - i,
    {
        insert_ascending(&mut sorted, &list[i]);
        proof {
            lemma_take_to_set(all, i as int);
        }
        i += 1;
    }
    proof {
        assert(all.take(list@.len() as int) =~= all);
        lemma_is_listing(dash::texts(sorted@), all.to_set());
    }
    sorted
}

/// Of two texts that differ first in one character, the one with the smaller character
/// comes first, whatever follows.
pub proof fn law_first_difference_decides(
    common: Seq<char>,
    smaller: char,
    larger: char,
    rest: Seq<char>,
    other_rest: Seq<char>,
)
    requires
        smaller < larger,
    ensures
        precedes(common.push(smaller) + rest, common.push(larger) + other_rest),
        !precedes(common.push(larger) + other_rest, common.push(smaller) + rest),
{
    let a = common.push(smaller) + rest;
    let b = common.push(larger) + other_rest;
    assert(smaller_from(a, b, common.len() as int));
    lemma_precedes_asymmetric(a, b);
}

/// A text comes before every longer text that begins with it.
pub proof fn law_shorter_comes_first(common: Seq<char>, rest: Seq<char>)
    requires
        rest.len() > 0,
    ensures
        precedes(common, common + rest),
        !precedes(common + rest, common),
{
    assert(smaller_from(common, common + rest, common.len() as int));
    lemma_precedes_asymmetric(common, common + rest);
}

/// The listing of a finite set holds each of its texts once and no other, and of two texts
/// the one that comes first is listed first.
pub proof fn law_listing(set: Set<Seq<char>>, t: Seq<char>, i: int, j: int)
    requires
        set.finite(),
    ensures
        listing(set).contains(t) <==> set.contains(t),
        listing(set).len() == set.len(),
        0 <= i < j < listing(set).len() ==> precedes(listing(set)[i], listing(set)[j]),
{
    lemma_listing_exists(set);
    let list = listing(set);
    lemma_ascends_no_duplicates(list);
    list.unique_seq_to_set();
    assert(list.to_set().contains(t) <==> list.contains(t));
}

/// The texts of a list of strings are those of its strings, one by one.
pub proof fn law_texts(list: Seq<String>, i: int)
    ensures
        dash::texts(list).len() == list.len(),
        0 <= i < list.len() ==> dash::texts(list)[i] == list[i]@,
{
}

} // verus!
