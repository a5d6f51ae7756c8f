//! The test names that a fail pattern captures from a suite's output.

use crate::pattern::{all_matches, Pattern};
use crate::suite::group;
use crate::text::same_text;
use crate::views::group_deep_views;
use vstd::prelude::*;
use vstd::string::*;

verus! {

broadcast use group_deep_views;

/// How many killers a verdict names. A matrix wants to know which test caught a
/// mutant, not to read the whole failing suite.
pub const KILLED_BY_CAP: usize = 5;

/// A sequence without its repetitions: each value where it first stood.
pub open spec fn distinct<T>(s: Seq<T>) -> Seq<T>
    decreases s.len(),
{
    if s.len() == 0 {
        s
    } else {
        let earlier = distinct(s.drop_last());
        if earlier.contains(s.last()) {
            earlier
        } else {
            earlier.push(s.last())
        }
    }
}

/// The texts of the first group, over all matches in which it took part.
pub open spec fn first_groups(matches: Seq<Seq<Option<Seq<char>>>>) -> Seq<Seq<char>>
    decreases matches.len(),
{
    if matches.len() == 0 {
        Seq::empty()
    } else {
        let earlier = first_groups(matches.drop_last());
        match group(matches.last(), 1) {
            Some(name) => earlier.push(name),
            None => earlier,
        }
    }
}

/// The first groups of some matches are those of each match in turn: the text of
/// the group where a match has it, and nothing where it has not.
pub proof fn law_first_groups_come_match_by_match(
    some: Seq<Seq<Option<Seq<char>>>>,
    groups: Seq<Option<Seq<char>>>,
)
    ensures
        first_groups(Seq::empty()) == Seq::<Seq<char>>::empty(),
        groups.len() > 1 && groups[1] is Some ==> first_groups(some.push(groups)) == first_groups(
            some,
        ).push(groups[1]->0),
        groups.len() <= 1 || groups[1] is None ==> first_groups(some.push(groups)) == first_groups(
            some,
        ),
{
    assert(some.push(groups).drop_last() =~= some);
}

/// Whether `i` is where `x` first stands in `s`.
pub open spec fn first_seen_at<T>(s: Seq<T>, x: T, i: int) -> bool {
    &&& 0 <= i < s.len()
    &&& s[i] == x
    &&& forall|j: int| 0 <= j < i ==> s[j] != x
}

/// Dropping repetitions keeps every value, keeps each once, and orders them by
/// where they were first seen.
pub proof fn law_distinct_keeps_each_value_once_in_first_seen_order<T>(s: Seq<T>)
    ensures
        forall|x: T| distinct(s).contains(x) <==> s.contains(x),
        distinct(s).no_duplicates(),
        forall|i: int, j: int, a: int, b: int|
            0 <= i < j < distinct(s).len() && first_seen_at(s, distinct(s)[i], a) && first_seen_at(
                s,
                distinct(s)[j],
                b,
            ) ==> a < b,
    decreases s.len(),
{
    if s.len() > 0 {
        let shorter = s.drop_last();
        let earlier = distinct(shorter);
        law_distinct_keeps_each_value_once_in_first_seen_order(shorter);
        assert forall|x: T| distinct(s).contains(x) <==> s.contains(x) by {
            if s.contains(x) {
                let k = choose|k: int| 0 <= k < s.len() && s[k] == x;
                if k < shorter.len() {
                    assert(shorter[k] == x);
                    assert(shorter.contains(x));
                    assert(earlier.contains(x));
                    let m = choose|m: int| 0 <= m < earlier.len() && earlier[m] == x;
                    assert(distinct(s)[m] == x);
                } else if !earlier.contains(x) {
                    assert(distinct(s)[earlier.len() as int] == x);
                }
            }
            if distinct(s).contains(x) {
                let m = choose|m: int| 0 <= m < distinct(s).len() && distinct(s)[m] == x;
                if m < earlier.len() {
                    assert(earlier[m] == x && earlier.contains(x) && shorter.contains(x));
                    let k = choose|k: int| 0 <= k < shorter.len() && shorter[k] == x;
                    assert(s[k] == x);
                } else {
                    assert(s[s.len() - 1] == x);
                }
            }
        }
        assert forall|i: int, j: int, a: int, b: int|
            0 <= i < j < distinct(s).len() && first_seen_at(s, distinct(s)[i], a) && first_seen_at(
                s,
                distinct(s)[j],
                b,
            ) implies a < b by {
            let x = distinct(s)[i];
            let y = distinct(s)[j];
            assert(earlier[i] == x && earlier.contains(x) && shorter.contains(x));
            let k = choose|k: int| 0 <= k < shorter.len() && shorter[k] == x;
            assert(s[k] == x);
            assert(a <= k);
            assert(first_seen_at(shorter, x, a)) by {
                assert forall|m: int| 0 <= m < a implies shorter[m] != x by {
                    assert(s[m] != x);
                }
            }
            if j < earlier.len() {
                assert(earlier[j] == y && earlier.contains(y) && shorter.contains(y));
                let l = choose|l: int| 0 <= l < shorter.len() && shorter[l] == y;
                assert(s[l] == y);
                assert(b <= l);
                assert(first_seen_at(shorter, y, b)) by {
                    assert forall|m: int| 0 <= m < b implies shorter[m] != y by {
                        assert(s[m] != y);
                    }
                }
            } else if b < shorter.len() {
                assert(shorter[b] == y);
                assert(shorter.contains(y));
            }
        }
    }
}

/// Whether a name is among those collected.
fn is_listed(names: &Vec<String>, name: &str) -> (r: bool)
    ensures
        r == names.deep_view().contains(name@),
{
    for i in 0..names.len()
        invariant
            forall|j: int| 0 <= j < i ==> names.deep_view()[j] != name@,
    {
        if same_text(names[i].as_str(), name) {
            assert(names.deep_view()[i as int] == name@);
            return true;
        }
    }
    false
}

/// The distinct names in the first groups of some matches, first seen first.
pub fn names_in(matches: &Vec<Vec<Option<String>>>) -> (r: Vec<String>)
    ensures
        r.deep_view() == distinct(first_groups(matches.deep_view())),
{
    let ghost all = matches.deep_view();
    let mut names: Vec<String> = Vec::new();
    assert(names.deep_view() =~= distinct(first_groups(all.take(0))));
    for i in 0..matches.len()
        invariant
            all == matches.deep_view(),
            names.deep_view() == distinct(first_groups(all.take(i as int))),
    {
        proof {
            assert(all[i as int] == matches@[i as int].deep_view());
            assert(all.take(i + 1).drop_last() == all.take(i as int));
        }
        let ghost so_far = first_groups(all.take(i as int));
        if matches[i].len() > 1 {
            if let Some(name) = &matches[i][1] {
                assert(so_far.push(name@).drop_last() == so_far);
                if !is_listed(&names, name.as_str()) {
                    names.push(name.clone());
                }
            }
        }
    }
    assert(all.take(all.len() as int) == all);
    names
}

/// The distinct names that a fail pattern captures from suite output, first
/// seen first. Harnesses repeat themselves, and a repeated name would spend a
/// place that another killer needs.
pub fn captured_names(output: &str, fail_pattern: &Pattern) -> (r: Vec<String>)
    ensures
        r.deep_view() == distinct(first_groups(all_matches(fail_pattern@, output@))),
        r.deep_view().no_duplicates(),
{
    let matches = fail_pattern.matches(output);
    proof {
        law_distinct_keeps_each_value_once_in_first_seen_order(
            first_groups(matches.deep_view()),
        );
    }
    names_in(&matches)
}

} // verus!
