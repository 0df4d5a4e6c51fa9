//! Searching and cutting text, by characters.

use vstd::prelude::*;
use vstd::string::{StrSliceExecFns, StringExecFns};

verus! {

/// `pat` stands in `s` from position `i` on.
pub open spec fn occurs_at(s: Seq<char>, pat: Seq<char>, i: int) -> bool {
    &&& 0 <= i
    &&& i + pat.len() <= s.len()
    &&& s.subrange(i, i + pat.len()) == pat
}

/// `i` is the leftmost position at which `pat` stands in `s`.
pub open spec fn occurs_first_at(s: Seq<char>, pat: Seq<char>, i: int) -> bool {
    &&& occurs_at(s, pat, i)
    &&& forall|j: int| j < i ==> !occurs_at(s, pat, j)
}

/// `i` is the rightmost position at which `pat` stands in `s`.
pub open spec fn occurs_last_at(s: Seq<char>, pat: Seq<char>, i: int) -> bool {
    &&& occurs_at(s, pat, i)
    &&& forall|j: int| i < j ==> !occurs_at(s, pat, j)
}

/// The leftmost position at which `pat` stands in `s`, if it stands there at all.
pub open spec fn first_position(s: Seq<char>, pat: Seq<char>) -> Option<int> {
    if exists|i: int| occurs_at(s, pat, i) {
        Some(choose|i: int| occurs_first_at(s, pat, i))
    } else {
        None
    }
}

/// The rightmost position at which `pat` stands in `s`, if it stands there at all.
pub open spec fn last_position(s: Seq<char>, pat: Seq<char>) -> Option<int> {
    if exists|i: int| occurs_at(s, pat, i) {
        Some(choose|i: int| occurs_last_at(s, pat, i))
    } else {
        None
    }
}

/// `s` without the leftmost occurrence of `pat`.
pub open spec fn without_first(s: Seq<char>, pat: Seq<char>) -> Seq<char> {
    match first_position(s, pat) {
        Some(i) => s.take(i) + s.skip(i + pat.len()),
        None => s,
    }
}

/// What follows the leftmost occurrence of `pat` in `s`; all of `s` where there is
/// none.
pub open spec fn after_first(s: Seq<char>, pat: Seq<char>) -> Seq<char> {
    match first_position(s, pat) {
        Some(i) => s.skip(i + pat.len()),
        None => s,
    }
}

/// `s` begins with `pat`.
pub open spec fn begins_with(s: Seq<char>, pat: Seq<char>) -> bool {
    occurs_at(s, pat, 0)
}

/// `first_position` is the one position that `occurs_first_at` describes.
pub proof fn lemma_first_position(s: Seq<char>, pat: Seq<char>, i: int)
    requires
        occurs_first_at(s, pat, i),
    ensures
        first_position(s, pat) == Some(i),
{
    let k = choose|k: int| occurs_first_at(s, pat, k);
    assert(occurs_first_at(s, pat, k));
    assert(!(k < i) && !(i < k));
}

/// `last_position` is the one position that `occurs_last_at` describes.
pub proof fn lemma_last_position(s: Seq<char>, pat: Seq<char>, i: int)
    requires
        occurs_last_at(s, pat, i),
    ensures
        last_position(s, pat) == Some(i),
{
    let k = choose|k: int| occurs_last_at(s, pat, k);
    assert(occurs_last_at(s, pat, k));
    assert(!(k < i) && !(i < k));
}

/// Text that begins with `pat` loses just that beginning.
pub proof fn lemma_without_first_of_beginning(s: Seq<char>, pat: Seq<char>)
    requires
        begins_with(s, pat),
    ensures
        without_first(s, pat) == s.skip(pat.len() as int),
{
    assert(occurs_first_at(s, pat, 0));
    lemma_first_position(s, pat, 0);
    assert(s.take(0) + s.skip(pat.len() as int) =~= s.skip(pat.len() as int));
}

/// The characters of a text, one by one.
pub fn chars_of(s: &str) -> (chars: Vec<char>)
    ensures
        chars@ == s@,
{
    let mut chars: Vec<char> = Vec::new();
    for c in it: s.chars()
        invariant
            it.seq() == s@,
            chars@ == s@.take(it.index() as int),
    {
        chars.push(c);
    }
    assert(s@.take(s@.len() as int) =~= s@);
    chars
}

fn stands_at(s: &Vec<char>, pat: &Vec<char>, i: usize) -> (found: bool)
    requires
        i + pat.len() <= s.len(),
    ensures
        found == occurs_at(s@, pat@, i as int),
{
    let mut k: usize = 0;
    while k < pat.len()
        invariant
            k <= pat.len(),
            i + pat.len() <= s.len(),
            forall|m: int| 0 <= m < k ==> s@[i + m] == pat@[m],
        decreases pat.len() - k,
    {
        if s[i + k] != pat[k] {
            assert(s@.subrange(i as int, i + pat@.len())[k as int] != pat@[k as int]);
            return false;
        }
        k += 1;
    }
    assert(s@.subrange(i as int, i + pat@.len()) =~= pat@);
    true
}

/// The leftmost position of `pat` in `s`.
pub fn find(s: &str, pat: &str) -> (position: Option<usize>)
    ensures
        position is Some <==> first_position(s@, pat@) is Some,
        position matches Some(i) ==> first_position(s@, pat@) == Some(i as int)
            && occurs_first_at(s@, pat@, i as int),
{
    let chars = chars_of(s);
    let pattern = chars_of(pat);
    if chars.len() < pattern.len() {
        return None;
    }
    let last: usize = chars.len() - pattern.len();
    let mut i: usize = 0;
    loop
        invariant
            chars@ == s@,
            pattern@ == pat@,
            last + pattern.len() == chars.len(),
            i <= last,
            forall|j: int| j < i ==> !occurs_at(s@, pat@, j),
        decreases last - i,
    {
        if stands_at(&chars, &pattern, i) {
            proof {
                lemma_first_position(s@, pat@, i as int);
            }
            return Some(i);
        }
        if i == last {
            return None;
        }
        i += 1;
    }
}

/// The rightmost position of `pat` in `s`.
pub fn rfind(s: &str, pat: &str) -> (position: Option<usize>)
    ensures
        position is Some <==> last_position(s@, pat@) is Some,
        position matches Some(i) ==> last_position(s@, pat@) == Some(i as int)
            && occurs_last_at(s@, pat@, i as int),
{
    let chars = chars_of(s);
    let pattern = chars_of(pat);
    if chars.len() < pattern.len() {
        return None;
    }
    let mut i: usize = chars.len() - pattern.len();
    loop
        invariant
            chars@ == s@,
            pattern@ == pat@,
            i + pattern.len() <= chars.len(),
            forall|j: int| i < j ==> !occurs_at(s@, pat@, j),
        decreases i,
    {
        if stands_at(&chars, &pattern, i) {
            proof {
                lemma_last_position(s@, pat@, i as int);
            }
            return Some(i);
        }
        if i == 0 {
            return None;
        }
        i -= 1;
    }
}

/// Does `s` begin with `pat`?
pub fn starts_with(s: &str, pat: &str) -> (found: bool)
    ensures
        found == begins_with(s@, pat@),
{
    let chars = chars_of(s);
    let pattern = chars_of(pat);
    pattern.len() <= chars.len() && stands_at(&chars, &pattern, 0)
}

/// Is `c` the last character of `s`?
pub fn ends_with_char(s: &str, c: char) -> (found: bool)
    ensures
        found == (s@.len() > 0 && s@.last() == c),
{
    let chars = chars_of(s);
    chars.len() > 0 && chars[chars.len() - 1] == c
}

/// The text of `s` from position `from` on.
pub fn tail(s: &str, from: usize) -> (rest: String)
    requires
        from <= s@.len(),
    ensures
        rest@ == s@.skip(from as int),
{
    let length: usize = s.unicode_len();
    let rest = s.substring_char(from, length).to_owned();
    assert(s@.subrange(from as int, length as int) =~= s@.skip(from as int));
    rest
}

/// `s` without the leftmost occurrence of `pat`.
pub fn remove_first(s: &str, pat: &str) -> (rest: String)
    ensures
        rest@ == without_first(s@, pat@),
{
    match find(s, pat) {
        Some(i) => {
            let total: usize = s.unicode_len();
            let length: usize = pat.unicode_len();
            assert(i + length <= total);
            let mut rest = s.substring_char(0, i).to_owned();
            rest.append(tail(s, i + length).as_str());
            assert(s@.subrange(0, i as int) =~= s@.take(i as int));
            rest
        },
        None => s.to_owned(),
    }
}

proof fn lemma_first_exists(s: Seq<char>, pat: Seq<char>, i: int)
    requires
        occurs_at(s, pat, i),
    ensures
        exists|k: int| occurs_first_at(s, pat, k),
    decreases i,
{
    if exists|j: int| j < i && occurs_at(s, pat, j) {
        let j = choose|j: int| j < i && occurs_at(s, pat, j);
        lemma_first_exists(s, pat, j);
    } else {
        assert(occurs_first_at(s, pat, i));
    }
}

proof fn lemma_last_exists(s: Seq<char>, pat: Seq<char>, i: int)
    requires
        occurs_at(s, pat, i),
    ensures
        exists|k: int| occurs_last_at(s, pat, k),
    decreases s.len() - i,
{
    if exists|j: int| i < j && occurs_at(s, pat, j) {
        let j = choose|j: int| i < j && occurs_at(s, pat, j);
        lemma_last_exists(s, pat, j);
    } else {
        assert(occurs_last_at(s, pat, i));
    }
}

/// A text stands wherever it was put between two others.
pub proof fn law_put_text_occurs(before: Seq<char>, pat: Seq<char>, after: Seq<char>)
    ensures
        occurs_at(before + pat + after, pat, before.len() as int),
        begins_with(pat + after, pat),
{
    let s = before + pat + after;
    assert(s.subrange(before.len() as int, (before.len() + pat.len()) as int) =~= pat);
    assert((pat + after).subrange(0, pat.len() as int) =~= pat);
}

/// Where a text stands in another, the other falls into what is before it, the text
/// itself, and what is behind it.
pub proof fn law_occurrence_splits(s: Seq<char>, pat: Seq<char>, i: int)
    requires
        occurs_at(s, pat, i),
    ensures
        0 <= i <= s.len() - pat.len(),
        s == s.take(i) + pat + s.skip(i + pat.len()),
{
    assert(s =~= s.take(i) + s.subrange(i, i + pat.len()) + s.skip(i + pat.len()));
}

/// A text begins with another exactly when the other and some rest make it up.
pub proof fn law_beginning(s: Seq<char>, pat: Seq<char>)
    ensures
        begins_with(s, pat) <==> exists|rest: Seq<char>| s == #[trigger] (pat + rest),
{
    if begins_with(s, pat) {
        law_occurrence_splits(s, pat, 0);
        assert(s =~= pat + s.skip(pat.len() as int));
    }
    if exists|rest: Seq<char>| s == #[trigger] (pat + rest) {
        let rest = choose|rest: Seq<char>| s == #[trigger] (pat + rest);
        law_put_text_occurs(Seq::empty(), pat, rest);
    }
}

/// The leftmost position is one at which the text stands, and none is further left; there
/// is none exactly when the text stands nowhere.
pub proof fn law_first_position(s: Seq<char>, pat: Seq<char>)
    ensures
        match first_position(s, pat) {
            Some(i) => occurs_at(s, pat, i) && forall|j: int| occurs_at(s, pat, j) ==> i <= j,
            None => forall|j: int| !occurs_at(s, pat, j),
        },
{
    if exists|i: int| occurs_at(s, pat, i) {
        let i = choose|i: int| occurs_at(s, pat, i);
        lemma_first_exists(s, pat, i);
        let k = choose|k: int| occurs_first_at(s, pat, k);
        lemma_first_position(s, pat, k);
    }
}

/// The rightmost position is one at which the text stands, and none is further right;
/// there is none exactly when the text stands nowhere.
pub proof fn law_last_position(s: Seq<char>, pat: Seq<char>)
    ensures
        match last_position(s, pat) {
            Some(i) => occurs_at(s, pat, i) && forall|j: int| occurs_at(s, pat, j) ==> j <= i,
            None => forall|j: int| !occurs_at(s, pat, j),
        },
{
    if exists|i: int| occurs_at(s, pat, i) {
        let i = choose|i: int| occurs_at(s, pat, i);
        lemma_last_exists(s, pat, i);
        let k = choose|k: int| occurs_last_at(s, pat, k);
        lemma_last_position(s, pat, k);
    }
}

/// Cutting at the leftmost occurrence gives back what was put around it.
pub proof fn law_cut_at_first(before: Seq<char>, pat: Seq<char>, after: Seq<char>)
    requires
        forall|j: int| j < before.len() ==> !occurs_at(before + pat + after, pat, j),
    ensures
        first_position(before + pat + after, pat) == Some(before.len() as int),
        without_first(before + pat + after, pat) == before + after,
        after_first(before + pat + after, pat) == after,
{
    let s = before + pat + after;
    law_put_text_occurs(before, pat, after);
    assert(occurs_first_at(s, pat, before.len() as int));
    lemma_first_position(s, pat, before.len() as int);
    assert(s.take(before.len() as int) =~= before);
    assert(s.skip((before.len() + pat.len()) as int) =~= after);
}

/// A text in which another stands nowhere is left whole.
pub proof fn law_nothing_to_cut(s: Seq<char>, pat: Seq<char>)
    requires
        forall|j: int| !occurs_at(s, pat, j),
    ensures
        without_first(s, pat) == s,
        after_first(s, pat) == s,
{
}

} // verus!
