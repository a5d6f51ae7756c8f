//! Applying a mutant to a file's text.

use crate::config::{MutantConfig, MutantView};
use crate::text::{
    chars_of, contains_text, count_occurrences, decimal, decimal_text, first_at, first_position,
    occurrences_from, occurs_at, past, push_range, spliced,
};
use vstd::prelude::*;
use vstd::string::*;

verus! {

/// A text with the first occurrence of `target` replaced, or the text itself
/// where there is none.
pub open spec fn replaced_first(
    text: Seq<char>,
    target: Seq<char>,
    replacement: Seq<char>,
) -> Seq<char> {
    if contains_text(text, target) {
        spliced(text, choose|i: int| first_at(text, target, i), target.len(), replacement)
    } else {
        text
    }
}

/// What a mutant makes of a file: the mutated text where the target occurs
/// exactly once, and otherwise the number of times that it occurs.
pub open spec fn mutation_of(original: Seq<char>, mutant: MutantView) -> Result<Seq<char>, nat> {
    let occurrences = occurrences_from(original, mutant.target, 0);
    if occurrences == 1 {
        Ok(replaced_first(original, mutant.target, mutant.replacement))
    } else {
        Err(occurrences)
    }
}

/// Why a mutant whose target occurs `n` times is invalid.
pub open spec fn occurrence_complaint(n: nat) -> Seq<char> {
    "target occurs "@ + decimal(n) + "x (need exactly 1) — mutates nothing"@
}

proof fn lemma_first_exists(text: Seq<char>, target: Seq<char>, i: int)
    requires
        occurs_at(text, target, i),
    ensures
        exists|j: int| j <= i && first_at(text, target, j),
    decreases i,
{
    if forall|j: int| 0 <= j < i ==> !occurs_at(text, target, j) {
        assert(first_at(text, target, i));
    } else {
        let j = choose|j: int| 0 <= j < i && occurs_at(text, target, j);
        lemma_first_exists(text, target, j);
    }
}

proof fn lemma_first_is_unique(text: Seq<char>, target: Seq<char>, i: int, j: int)
    requires
        first_at(text, target, i),
        first_at(text, target, j),
    ensures
        i == j,
{
    if i < j {
        assert(!occurs_at(text, target, i));
    } else if j < i {
        assert(!occurs_at(text, target, j));
    }
}

/// Counting nothing from a position on means that nothing stands there.
proof fn lemma_none_from(text: Seq<char>, target: Seq<char>, i: int, j: int)
    requires
        0 <= i <= j,
        occurrences_from(text, target, i) == 0,
    ensures
        !occurs_at(text, target, j),
    decreases j - i,
{
    if i < j && i + target.len() <= text.len() {
        lemma_none_from(text, target, i + 1, j);
    }
}

/// Nothing standing from a position on means that nothing is counted.
proof fn lemma_nothing_past_counts_none(text: Seq<char>, target: Seq<char>, i: int)
    requires
        0 <= i,
        forall|j: int| j >= i ==> !occurs_at(text, target, j),
    ensures
        occurrences_from(text, target, i) == 0,
    decreases text.len() + 1 - i,
{
    if i + target.len() <= text.len() {
        assert(!occurs_at(text, target, i));
        lemma_nothing_past_counts_none(text, target, i + 1);
    }
}

/// The first occurrence from a position on is the first that is counted.
pub(crate) proof fn lemma_count_at_first(text: Seq<char>, target: Seq<char>, i: int, first: int)
    requires
        0 <= i <= first,
        occurs_at(text, target, first),
        forall|j: int| i <= j < first ==> !occurs_at(text, target, j),
    ensures
        occurrences_from(text, target, i) == 1 + occurrences_from(
            text,
            target,
            past(target, first),
        ),
    decreases first - i,
{
    if i < first {
        assert(!occurs_at(text, target, i));
        lemma_count_at_first(text, target, i + 1, first);
    }
}

/// A target counted once stands at one place, and nowhere past its end.
proof fn lemma_counted_once(text: Seq<char>, target: Seq<char>) -> (i: int)
    requires
        occurrences_from(text, target, 0) == 1,
    ensures
        first_at(text, target, i),
        forall|j: int| j >= past(target, i) ==> !occurs_at(text, target, j),
        i == (choose|k: int| first_at(text, target, k)),
        contains_text(text, target),
{
    if forall|j: int| !occurs_at(text, target, j) {
        lemma_nothing_past_counts_none(text, target, 0);
    }
    let some = choose|j: int| occurs_at(text, target, j);
    lemma_first_exists(text, target, some);
    let i = choose|k: int| first_at(text, target, k);
    lemma_count_at_first(text, target, 0, i);
    assert forall|j: int| j >= past(target, i) implies !occurs_at(text, target, j) by {
        lemma_none_from(text, target, past(target, i), j);
    }
    i
}

/// A target is counted zero times exactly where it stands nowhere: a mutant
/// that would mutate nothing is always told apart from one that was tried.
pub proof fn law_absent_target_is_counted_zero(text: Seq<char>, target: Seq<char>)
    ensures
        occurrences_from(text, target, 0) == 0 <==> !contains_text(text, target),
{
    if !contains_text(text, target) {
        lemma_nothing_past_counts_none(text, target, 0);
    } else {
        let some = choose|j: int| occurs_at(text, target, j);
        lemma_first_exists(text, target, some);
        let i = choose|k: int| first_at(text, target, k);
        lemma_count_at_first(text, target, 0, i);
    }
}

/// Whether `target` first stands in `text` at `i`, and past its end nowhere
/// again.
pub open spec fn only_at(text: Seq<char>, target: Seq<char>, i: int) -> bool {
    &&& first_at(text, target, i)
    &&& forall|j: int| j >= past(target, i) ==> !occurs_at(text, target, j)
}

/// A target is counted once exactly where it stands somewhere and, past the end
/// of where it first stands, nowhere again.
pub proof fn law_counted_once_means_no_second_stretch(text: Seq<char>, target: Seq<char>)
    ensures
        occurrences_from(text, target, 0) == 1 <==> exists|i: int| only_at(text, target, i),
{
    if occurrences_from(text, target, 0) == 1 {
        let i = lemma_counted_once(text, target);
        assert(only_at(text, target, i));
    }
    if exists|i: int| only_at(text, target, i) {
        let i = choose|i: int| only_at(text, target, i);
        lemma_count_at_first(text, target, 0, i);
        lemma_nothing_past_counts_none(text, target, past(target, i));
    }
}

/// A valid mutant changes one stretch of the file and nothing else: the
/// original is some text before, the target and some text after, and the
/// mutated file is the same with the replacement in the target's place.
pub proof fn law_mutant_replaces_one_stretch(original: Seq<char>, mutant: MutantView)
    requires
        mutation_of(original, mutant) is Ok,
    ensures
        exists|before: Seq<char>, after: Seq<char>|
            original == #[trigger] (before + mutant.target + after) && mutation_of(original, mutant)
                == Ok::<Seq<char>, nat>(before + mutant.replacement + after),
{
    let i = lemma_counted_once(original, mutant.target);
    let before = original.take(i);
    let after = original.skip(i + mutant.target.len());
    assert(original.subrange(i, i + mutant.target.len()) == mutant.target);
    assert(original =~= before + mutant.target + after);
}

/// A mutant is valid exactly where its target stands in the file and, past the end
/// of where it first stands, nowhere again. Any other is refused with the number of
/// times that its target was counted, which is none or several.
pub proof fn law_only_a_target_found_once_is_mutated(original: Seq<char>, mutant: MutantView)
    ensures
        mutation_of(original, mutant) is Ok <==> occurrences_from(original, mutant.target, 0) == 1,
        mutation_of(original, mutant) is Ok <==> exists|i: int|
            only_at(original, mutant.target, i),
        mutation_of(original, mutant) matches Err(n) ==> n == occurrences_from(
            original,
            mutant.target,
            0,
        ) && n != 1,
        mutation_of(original, mutant) == Err::<Seq<char>, nat>(0) <==> !contains_text(
            original,
            mutant.target,
        ),
{
    law_counted_once_means_no_second_stretch(original, mutant.target);
    law_absent_target_is_counted_zero(original, mutant.target);
}

/// A target that stands twice without overlap makes a mutant invalid, wherever in
/// the file that is and whatever the replacement.
pub proof fn law_a_repeated_target_is_never_mutated(
    before: Seq<char>,
    between: Seq<char>,
    after: Seq<char>,
    mutant: MutantView,
)
    requires
        mutant.target.len() > 0,
    ensures
        mutation_of(before + mutant.target + between + mutant.target + after, mutant) is Err,
        mutation_of(before + mutant.target + between + mutant.target + after, mutant)->Err_0 >= 2,
{
    let target = mutant.target;
    let text = before + target + between + target + after;
    let first = before.len() as int;
    let second = first + target.len() + between.len();
    assert(text.subrange(first, first + target.len()) =~= target);
    assert(text.subrange(second, second + target.len()) =~= target);
    assert(occurs_at(text, target, first) && occurs_at(text, target, second));
    law_absent_target_is_counted_zero(text, target);
    if occurrences_from(text, target, 0) == 1 {
        let i = lemma_counted_once(text, target);
        assert(i <= first);
        assert(!occurs_at(text, target, second));
    }
}

/// A valid mutant replaces its target where it first stands: no earlier stretch of
/// the file is the target.
pub proof fn law_mutant_replaces_the_first_stretch(
    before: Seq<char>,
    after: Seq<char>,
    mutant: MutantView,
)
    requires
        mutation_of(before + mutant.target + after, mutant) is Ok,
        forall|i: int|
            0 <= i < before.len() ==> #[trigger] (before + mutant.target + after).subrange(
                i,
                i + mutant.target.len(),
            ) != mutant.target,
    ensures
        mutation_of(before + mutant.target + after, mutant)->Ok_0 == before + mutant.replacement
            + after,
{
    let target = mutant.target;
    let original = before + target + after;
    let i = lemma_counted_once(original, target);
    let at = before.len() as int;
    assert(original.subrange(at, at + target.len()) =~= target);
    assert(first_at(original, target, at)) by {
        assert forall|j: int| 0 <= j < at implies !occurs_at(original, target, j) by {
            assert(original.subrange(j, j + target.len()) != target);
        }
    }
    lemma_first_is_unique(original, target, i, at);
    assert(original.take(at) =~= before);
    assert(original.skip(at + target.len()) =~= after);
}

/// A valid mutant leaves the file as it was exactly where its replacement is
/// its target.
pub proof fn law_mutant_changes_the_file(original: Seq<char>, mutant: MutantView)
    requires
        mutation_of(original, mutant) is Ok,
    ensures
        mutation_of(original, mutant)->Ok_0 == original <==> mutant.replacement == mutant.target,
{
    let i = lemma_counted_once(original, mutant.target);
    let before = original.take(i);
    let after = original.skip(i + mutant.target.len());
    let mutated = before + mutant.replacement + after;
    assert(original.subrange(i, i + mutant.target.len()) == mutant.target);
    assert(original =~= before + mutant.target + after);
    if mutated == original {
        assert(mutant.replacement.len() == mutant.target.len());
        assert(mutated.subrange(i, i + mutant.target.len()) =~= mutant.replacement);
    }
}

/// Applies a mutant to a file's text, or says how often its target occurs.
pub fn apply_mutant(original: &str, mutant: &MutantConfig) -> (r: Result<String, u128>)
    ensures
        match r {
            Ok(mutated) => mutation_of(original@, mutant@) == Ok::<Seq<char>, nat>(mutated@),
            Err(n) => mutation_of(original@, mutant@) == Err::<Seq<char>, nat>(n as nat),
        },
{
    let text = chars_of(original);
    let target = chars_of(mutant.target.as_str());
    let occurrences: u128 = count_occurrences(&text, &target);
    if occurrences != 1 {
        return Err(occurrences);
    }
    let ghost at = lemma_counted_once(original@, mutant.target@);
    let i: usize = first_position(&text, &target).unwrap();
    proof {
        lemma_first_is_unique(original@, mutant.target@, at, i as int);
    }
    let end: usize = text.len();
    let mut mutated = String::new();
    push_range(&mut mutated, &text, 0, i);
    mutated.append(mutant.replacement.as_str());
    push_range(&mut mutated, &text, i + target.len(), end);
    assert(mutated@ =~= spliced(original@, at, mutant.target@.len(), mutant.replacement@));
    Ok(mutated)
}

/// Writes why a mutant whose target occurs `n` times is invalid.
pub fn complain_of_occurrences(n: u128) -> (r: String)
    ensures
        r@ == occurrence_complaint(n as nat),
{
    let mut detail = "target occurs ".to_string();
    detail.append(decimal_text(n).as_str());
    detail.append("x (need exactly 1) — mutates nothing");
    detail
}

} // verus!
