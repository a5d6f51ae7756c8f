//! Text as sequences of characters: conversions, search, replacement and the
//! decimal numbers that tallies and messages are made of.

use crate::mutation::lemma_count_at_first;
use vstd::prelude::*;
use vstd::string::*;
use vstd::utf8::*;

verus! {

// ------------------------------------------------------------ characters ----
/// `String::push` appends one character.
pub assume_specification[ String::push ](s: &mut String, c: char)
    ensures
        final(s)@ == old(s)@.push(c),
;

/// The characters of a text, one per element.
pub fn chars_of(s: &str) -> (r: Vec<char>)
    ensures
        r@ == s@,
{
    let mut r: Vec<char> = Vec::new();
    for c in it: s.chars()
        invariant
            it.seq() == s@,
            r@ == s@.take(it.index() as int),
    {
        r.push(c);
    }
    r
}

/// Appends the characters from `from` up to `to` to a text.
pub fn push_range(s: &mut String, chars: &Vec<char>, from: usize, to: usize)
    requires
        from <= to <= chars@.len(),
    ensures
        final(s)@ == old(s)@ + chars@.subrange(from as int, to as int),
{
    let ghost before = s@;
    for i in from..to
        invariant
            from <= to <= chars@.len(),
            s@ == before + chars@.subrange(from as int, i as int),
    {
        s.push(chars[i]);
    }
}

/// Whether two texts hold the same characters.
pub fn same_text(a: &str, b: &str) -> (r: bool)
    ensures
        r == (a@ == b@),
{
    a.to_owned() == b.to_owned()
}

/// The text that `{:?}` writes for a string: quoted, with escapes.
pub uninterp spec fn debug_quoted(s: Seq<char>) -> Seq<char>;

/// Calls `format!` with `{:?}` on a string. Claims that the text written
/// depends on the string alone.
#[verifier::external_body]
pub(crate) fn quoted(s: &str) -> (r: String)
    ensures
        r@ == debug_quoted(s@),
{
    format!("{:?}", s)
}

/// The text that `String::from_utf8_lossy` reads from bytes.
pub uninterp spec fn lossy_text(bytes: Seq<u8>) -> Seq<char>;

/// Calls `String::from_utf8_lossy`. Claims that the text depends on the bytes
/// alone, and that well-formed UTF-8 is decoded without loss.
#[verifier::external_body]
pub(crate) fn read_lossy(bytes: &[u8]) -> (r: String)
    ensures
        r@ == lossy_text(bytes@),
        valid_utf8(bytes@) ==> r@ == decode_utf8(bytes@),
{
    String::from_utf8_lossy(bytes).into_owned()
}

// --------------------------------------------------------------- numbers ----
/// A natural number in decimal, without leading zeros.
pub open spec fn decimal(n: nat) -> Seq<char>
    decreases n,
{
    if n < 10 {
        seq!["0123456789"@[n as int]]
    } else {
        decimal(n / 10).push("0123456789"@[(n % 10) as int])
    }
}

/// Writes a number in decimal.
pub fn decimal_text(n: u128) -> (r: String)
    ensures
        r@ == decimal(n as nat),
    decreases n,
{
    proof {
        reveal_strlit("0123456789");
    }
    let digit = "0123456789".get_char((n % 10) as usize);
    let mut r = if n < 10 {
        String::new()
    } else {
        decimal_text(n / 10)
    };
    r.push(digit);
    r
}

/// Whether a character is an ASCII digit.
pub open spec fn is_digit(c: char) -> bool {
    '0' <= c && c <= '9'
}

/// The number that a run of digits spells.
pub open spec fn digits_value(s: Seq<char>) -> nat
    decreases s.len(),
{
    if s.len() == 0 {
        0
    } else {
        10 * digits_value(s.drop_last()) + (s.last() as nat - '0' as nat) as nat
    }
}

/// A count's text without the one plus sign that may stand before its digits.
pub open spec fn without_sign(s: Seq<char>) -> Seq<char> {
    if s.len() > 0 && s[0] == '+' {
        s.skip(1)
    } else {
        s
    }
}

/// The 64-bit count that a text spells: at least one digit, nothing but
/// digits after an optional plus sign, and no more than 64 bits hold.
pub open spec fn parsed_count(s: Seq<char>) -> Option<u64> {
    let digits = without_sign(s);
    if digits.len() > 0 && (forall|i: int| 0 <= i < digits.len() ==> is_digit(#[trigger] digits[i]))
        && digits_value(digits) <= u64::MAX {
        Some(digits_value(digits) as u64)
    } else {
        None
    }
}

proof fn lemma_digits_value_grows(s: Seq<char>, i: int)
    requires
        0 <= i <= s.len(),
    ensures
        digits_value(s.take(i)) <= digits_value(s),
    decreases s.len(),
{
    if i == s.len() {
        assert(s.take(i) == s);
    } else {
        lemma_digits_value_grows(s.drop_last(), i);
        assert(s.drop_last().take(i) == s.take(i));
    }
}

/// Reads a count, or nothing where the text does not spell one.
pub fn parse_count(s: &str) -> (r: Option<u64>)
    ensures
        r == parsed_count(s@),
{
    let chars = chars_of(s);
    let start: usize = if chars.len() > 0 && chars[0] == '+' {
        1
    } else {
        0
    };
    let ghost digits = without_sign(s@);
    assert(digits == s@.skip(start as int));
    if chars.len() == start {
        return None;
    }
    let mut value: u64 = 0;
    for i in start..chars.len()
        invariant
            start <= chars@.len(),
            chars@ == s@,
            digits == s@.skip(start as int),
            digits == without_sign(s@),
            value == digits_value(digits.take(i - start)),
            forall|j: int| 0 <= j < i - start ==> is_digit(#[trigger] digits[j]),
    {
        let c = chars[i];
        assert(c == digits[i - start]);
        if !('0' <= c && c <= '9') {
            return None;
        }
        let digit: u64 = c as u64 - '0' as u64;
        let ghost longer = digits.take(i - start + 1);
        proof {
            assert(longer.drop_last() == digits.take(i - start));
            lemma_digits_value_grows(digits, i - start + 1);
        }
        match value.checked_mul(10) {
            None => {
                return None;
            },
            Some(tens) => match tens.checked_add(digit) {
                None => {
                    return None;
                },
                Some(sum) => {
                    value = sum;
                },
            },
        }
    }
    assert(digits.take(digits.len() as int) == digits);
    Some(value)
}

/// A number's decimal text is its digit where it has one digit, and otherwise the
/// text of its tens with the digit of its ones behind it. It spells the number in
/// digits alone, and begins with a zero only for zero.
pub proof fn law_decimal_spells_the_number(n: nat, tens: nat, ones: nat)
    requires
        ones < 10,
    ensures
        ones == 0 ==> decimal(ones) == seq!['0'],
        decimal(ones).len() == 1 && decimal(ones)[0] as nat == '0' as nat + ones,
        tens > 0 ==> decimal(10 * tens + ones) == decimal(tens) + decimal(ones),
        digits_value(decimal(n)) == n,
        decimal(n).len() > 0,
        forall|i: int| 0 <= i < decimal(n).len() ==> '0' <= #[trigger] decimal(n)[i] && decimal(
            n,
        )[i] <= '9',
        n > 0 ==> decimal(n)[0] != '0',
    decreases n,
{
    reveal_strlit("0123456789");
    if tens > 0 {
        assert((10 * tens + ones) / 10 == tens && (10 * tens + ones) % 10 == ones);
        assert(decimal(10 * tens + ones) =~= decimal(tens) + decimal(ones));
    }
    reveal_with_fuel(digits_value, 2);
    if n >= 10 {
        law_decimal_spells_the_number(n / 10, tens, ones);
        assert(decimal(n).drop_last() =~= decimal(n / 10));
        assert forall|i: int| 0 <= i < decimal(n).len() implies '0' <= #[trigger] decimal(n)[i]
            && decimal(n)[i] <= '9' by {
            if i < decimal(n / 10).len() {
                assert(decimal(n)[i] == decimal(n / 10)[i]);
            }
        }
    } else {
        assert(decimal(n).drop_last() =~= Seq::empty());
    }
}

/// A count is read back as it is written, with or without a plus sign before it;
/// one that 64 bits do not hold is not read at all.
pub proof fn law_counts_are_read_back(n: nat)
    ensures
        n <= u64::MAX ==> parsed_count(decimal(n)) == Some(n as u64) && parsed_count(
            seq!['+'] + decimal(n),
        ) == Some(n as u64),
        n > u64::MAX ==> parsed_count(decimal(n)) is None && parsed_count(
            seq!['+'] + decimal(n),
        ) is None,
{
    law_decimal_spells_the_number(n, 0, 0);
    let signed = seq!['+'] + decimal(n);
    assert(signed.skip(1) =~= decimal(n));
    assert(without_sign(decimal(n)) == decimal(n)) by {
        assert('0' <= decimal(n)[0]);
    }
}

/// Only digits spell a count, at least one of them, after at most one plus sign;
/// zeros before a count change nothing.
pub proof fn law_only_digits_spell_a_count(s: Seq<char>)
    ensures
        parsed_count(s) is Some ==> s.len() > 0 && s != seq!['+'] && forall|i: int|
            0 <= i < s.len() ==> ('0' <= #[trigger] s[i] && s[i] <= '9') || (i == 0 && s[0] == '+'),
        s.len() > 0 && s[0] != '+' ==> parsed_count(seq!['0'] + s) == parsed_count(s),
{
    let digits = without_sign(s);
    if parsed_count(s) is Some {
        assert forall|i: int| 0 <= i < s.len() implies ('0' <= #[trigger] s[i] && s[i] <= '9') || (i
            == 0 && s[0] == '+') by {
            if s[0] == '+' {
                if i > 0 {
                    assert(is_digit(digits[i - 1]));
                }
            } else {
                assert(is_digit(digits[i]));
            }
        }
        if s == seq!['+'] {
            assert(digits.len() == 0);
        }
    }
    if s.len() > 0 && s[0] != '+' {
        let padded = seq!['0'] + s;
        lemma_leading_zero(s);
        assert(without_sign(padded) == padded);
        if forall|i: int| 0 <= i < s.len() ==> is_digit(#[trigger] s[i]) {
            assert forall|i: int| 0 <= i < padded.len() implies is_digit(#[trigger] padded[i]) by {
                if i > 0 {
                    assert(is_digit(s[i - 1]));
                }
            }
        } else {
            let i = choose|i: int| 0 <= i < s.len() && !is_digit(#[trigger] s[i]);
            assert(!is_digit(padded[i + 1]));
        }
    }
}

proof fn lemma_leading_zero(s: Seq<char>)
    ensures
        digits_value(seq!['0'] + s) == digits_value(s),
    decreases s.len(),
{
    let padded = seq!['0'] + s;
    if s.len() > 0 {
        lemma_leading_zero(s.drop_last());
        assert(padded.drop_last() =~= seq!['0'] + s.drop_last());
    } else {
        reveal_with_fuel(digits_value, 2);
        assert(padded.drop_last() =~= Seq::empty());
    }
}

// ---------------------------------------------------------------- search ----
/// Whether `target` stands in `text` at position `i`.
pub open spec fn occurs_at(text: Seq<char>, target: Seq<char>, i: int) -> bool {
    &&& 0 <= i
    &&& i + target.len() <= text.len()
    &&& text.subrange(i, i + target.len()) == target
}

/// Whether `part` stands anywhere in `text`.
pub open spec fn contains_text(text: Seq<char>, part: Seq<char>) -> bool {
    exists|i: int| occurs_at(text, part, i)
}

/// Whether `i` is the first position at which `target` stands in `text`.
pub open spec fn first_at(text: Seq<char>, target: Seq<char>, i: int) -> bool {
    &&& occurs_at(text, target, i)
    &&& forall|j: int| 0 <= j < i ==> !occurs_at(text, target, j)
}

/// The position from which a text is read on after `target` was met at `i`: its
/// end, or one character further where it is empty.
pub open spec fn past(target: Seq<char>, i: int) -> int {
    if target.len() == 0 {
        i + 1
    } else {
        i + target.len()
    }
}

/// The number of disjoint occurrences of `target` met in `text` when it is
/// read from position `i` on. An empty target stands before every character
/// and once more at the end.
pub open spec fn occurrences_from(text: Seq<char>, target: Seq<char>, i: int) -> nat
    decreases text.len() + 1 - i,
{
    if i < 0 || i + target.len() > text.len() {
        0
    } else if occurs_at(text, target, i) {
        1 + occurrences_from(text, target, past(target, i))
    } else {
        occurrences_from(text, target, i + 1)
    }
}

/// `text` with the stretch of `len` characters at `i` replaced.
pub open spec fn spliced(text: Seq<char>, i: int, len: nat, replacement: Seq<char>) -> Seq<char> {
    text.take(i) + replacement + text.skip(i + len)
}

/// A text contains a part exactly where it is some text before, the part and some
/// text after.
pub proof fn law_containing_text_splits_around_its_part(text: Seq<char>, part: Seq<char>)
    ensures
        contains_text(text, part) <==> exists|before: Seq<char>, after: Seq<char>|
            text == #[trigger] (before + part + after),
{
    if contains_text(text, part) {
        let i = choose|i: int| occurs_at(text, part, i);
        let before = text.take(i);
        let after = text.skip(i + part.len());
        assert(text.subrange(i, i + part.len()) == part);
        assert(text =~= before + part + after);
    }
    if exists|before: Seq<char>, after: Seq<char>| text == #[trigger] (before + part + after) {
        let (before, after) = choose|before: Seq<char>, after: Seq<char>|
            text == #[trigger] (before + part + after);
        lemma_part_is_contained(before, part, after);
    }
}

pub(crate) proof fn lemma_part_is_contained(
    before: Seq<char>,
    part: Seq<char>,
    after: Seq<char>,
)
    ensures
        contains_text(before + part + after, part),
{
    let text = before + part + after;
    let i = before.len() as int;
    assert(text.subrange(i, i + part.len()) =~= part);
    assert(occurs_at(text, part, i));
}

proof fn lemma_count_of_the_rest(text: Seq<char>, target: Seq<char>, from: int, i: int)
    requires
        0 <= from <= text.len(),
        0 <= i,
    ensures
        occurrences_from(text, target, from + i) == occurrences_from(text.skip(from), target, i),
    decreases text.len() + 1 - from - i,
{
    let rest = text.skip(from);
    if i + target.len() <= rest.len() {
        assert(rest.subrange(i, i + target.len()) =~= text.subrange(
            from + i,
            from + i + target.len(),
        ));
        if occurs_at(rest, target, i) {
            lemma_count_of_the_rest(text, target, from, past(target, i));
        } else {
            lemma_count_of_the_rest(text, target, from, i + 1);
        }
    }
}

/// Occurrences are counted one after another: one for the first, and then those in
/// the text behind it.
pub proof fn law_occurrences_are_counted_one_after_another(
    before: Seq<char>,
    target: Seq<char>,
    after: Seq<char>,
)
    requires
        target.len() > 0,
        forall|i: int| 0 <= i < before.len() ==> #[trigger] (before + target + after).subrange(
            i,
            i + target.len(),
        ) != target,
    ensures
        occurrences_from(before + target + after, target, 0) == 1 + occurrences_from(
            after,
            target,
            0,
        ),
{
    let text = before + target + after;
    let first = before.len() as int;
    assert(text.subrange(first, first + target.len()) =~= target);
    lemma_count_at_first(text, target, 0, first);
    lemma_count_of_the_rest(text, target, first + target.len(), 0);
    assert(text.skip(first + target.len()) =~= after);
}

/// An empty target stands before every character and once more at the end, and a
/// target longer than the text nowhere.
pub proof fn law_empty_and_overlong_targets_are_counted(text: Seq<char>, target: Seq<char>)
    ensures
        target.len() == 0 ==> occurrences_from(text, target, 0) == text.len() + 1,
        target.len() > text.len() ==> occurrences_from(text, target, 0) == 0,
{
    if target.len() == 0 {
        lemma_empty_target_count(text, target, 0);
    }
}

proof fn lemma_empty_target_count(text: Seq<char>, target: Seq<char>, i: int)
    requires
        target.len() == 0,
        0 <= i <= text.len() + 1,
    ensures
        occurrences_from(text, target, i) == text.len() + 1 - i,
    decreases text.len() + 1 - i,
{
    if i <= text.len() {
        assert(text.subrange(i, i) =~= target);
        lemma_empty_target_count(text, target, i + 1);
    }
}

/// Tests for `target` at one position.
pub fn stands_at(text: &Vec<char>, target: &Vec<char>, i: usize) -> (r: bool)
    ensures
        r == occurs_at(text@, target@, i as int),
{
    if i > text.len() || text.len() - i < target.len() {
        return false;
    }
    let text_len: usize = text.len();
    for k in 0..target.len()
        invariant
            text_len == text@.len(),
            i + target@.len() <= text_len,
            forall|j: int| 0 <= j < k ==> text@[i + j] == target@[j],
    {
        if text[i + k] != target[k] {
            assert(text@.subrange(i as int, i + target@.len())[k as int] != target@[k as int]);
            return false;
        }
    }
    assert(text@.subrange(i as int, i + target@.len()) == target@);
    true
}

/// Whether `part` stands anywhere in `text`.
pub fn has_part(text: &str, part: &str) -> (r: bool)
    ensures
        r == contains_text(text@, part@),
{
    let text_chars = chars_of(text);
    let part_chars = chars_of(part);
    match first_position(&text_chars, &part_chars) {
        Some(_) => true,
        None => false,
    }
}

/// The first position at which `target` stands in `text`.
pub fn first_position(text: &Vec<char>, target: &Vec<char>) -> (r: Option<usize>)
    ensures
        match r {
            Some(i) => first_at(text@, target@, i as int),
            None => !contains_text(text@, target@),
        },
{
    if text.len() < target.len() {
        return None;
    }
    let last: usize = text.len() - target.len();
    let mut i: usize = 0;
    while i < last
        invariant
            i <= last == text@.len() - target@.len(),
            forall|j: int| 0 <= j < i ==> !occurs_at(text@, target@, j),
        decreases last - i,
    {
        if stands_at(text, target, i) {
            return Some(i);
        }
        i = i + 1;
    }
    if stands_at(text, target, last) {
        return Some(last);
    }
    None
}

/// Counts the disjoint occurrences of `target` in `text`, left to right.
pub fn count_occurrences(text: &Vec<char>, target: &Vec<char>) -> (r: u128)
    ensures
        r == occurrences_from(text@, target@, 0),
{
    let text_len: usize = text.len();
    let target_len: usize = target.len();
    let step: u128 = if target_len == 0 {
        1
    } else {
        target_len as u128
    };
    let mut i: u128 = 0;
    let mut count: u128 = 0;
    while i + target_len as u128 <= text_len as u128
        invariant
            text_len == text@.len(),
            target_len == target@.len(),
            step == if target_len == 0 {
                1
            } else {
                target_len as u128
            },
            i <= text_len + step,
            count <= i,
            count + occurrences_from(text@, target@, i as int) == occurrences_from(
                text@,
                target@,
                0,
            ),
        decreases text_len + 1 - i,
    {
        if stands_at(text, target, i as usize) {
            count = count + 1;
            i = i + step;
        } else {
            i = i + 1;
        }
    }
    count
}

// ------------------------------------------------------------ assembling ----
/// The last `n` elements of a sequence, or all of a shorter one.
pub open spec fn last_of<T>(s: Seq<T>, n: nat) -> Seq<T> {
    if s.len() <= n {
        s
    } else {
        s.skip(s.len() - n)
    }
}

/// A text on one line: every line feed is a space.
pub open spec fn on_one_line(s: Seq<char>) -> Seq<char> {
    s.map_values(
        |c: char|
            if c == '\n' {
                ' '
            } else {
                c
            },
    )
}

/// The end of a sequence is what is left behind some part of it, and holds as many
/// elements as asked for, or all there are.
pub proof fn law_last_of_is_the_end<T>(s: Seq<T>, n: nat)
    ensures
        exists|before: Seq<T>| s == #[trigger] (before + last_of(s, n)),
        last_of(s, n).len() == if s.len() < n {
            s.len()
        } else {
            n
        },
{
    let before = s.take(s.len() - last_of(s, n).len());
    assert(s =~= before + last_of(s, n));
}

/// A text on one line differs from the text only in its line feeds, each of which
/// became a space.
pub proof fn law_one_line_changes_only_line_feeds(s: Seq<char>)
    ensures
        on_one_line(s).len() == s.len(),
        forall|i: int|
            0 <= i < s.len() ==> #[trigger] on_one_line(s)[i] == (if s[i] == '\n' {
                ' '
            } else {
                s[i]
            }),
{
}

/// The last `n` characters of a text put on one line.
pub fn tail(s: &str, n: usize) -> (r: String)
    ensures
        r@ == last_of(on_one_line(s@), n as nat),
        r@.len() <= n,
        !r@.contains('\n'),
{
    let chars = chars_of(s);
    let start: usize = if chars.len() <= n {
        0
    } else {
        chars.len() - n
    };
    let mut r = String::new();
    for i in start..chars.len()
        invariant
            start <= chars@.len(),
            chars@ == s@,
            r@ == on_one_line(s@).subrange(start as int, i as int),
    {
        r.push(
            if chars[i] == '\n' {
                ' '
            } else {
                chars[i]
            },
        );
    }
    r
}

/// Texts one after another, with a separator between each two.
pub open spec fn joined(parts: Seq<Seq<char>>, separator: Seq<char>) -> Seq<char>
    decreases parts.len(),
{
    if parts.len() <= 1 {
        if parts.len() == 0 {
            Seq::empty()
        } else {
            parts[0]
        }
    } else {
        joined(parts.drop_last(), separator) + separator + parts.last()
    }
}

/// Joining puts the separator between texts and nowhere else: one text is joined to
/// itself, and two lists of texts are joined by one separator.
pub proof fn law_separators_stand_between_texts(
    some: Seq<Seq<char>>,
    more: Seq<Seq<char>>,
    separator: Seq<char>,
)
    ensures
        some.len() == 0 ==> joined(some, separator) == Seq::<char>::empty(),
        some.len() == 1 ==> joined(some, separator) == some[0],
        some.len() > 0 && more.len() > 0 ==> joined(some + more, separator) == joined(
            some,
            separator,
        ) + separator + joined(more, separator),
    decreases more.len(),
{
    let all = some + more;
    if some.len() > 0 && more.len() > 0 {
        assert(all.last() == more.last());
        assert(all.drop_last() =~= some + more.drop_last());
        law_separators_stand_between_texts(some, more.drop_last(), separator);
        if more.len() == 1 {
            assert(all.drop_last() =~= some);
        }
        assert(joined(all, separator) =~= joined(some, separator) + separator + joined(
            more,
            separator,
        ));
    }
}

/// Joins the first `n` of some texts.
pub fn join_first(parts: &Vec<String>, n: usize, separator: &str) -> (r: String)
    requires
        n <= parts@.len(),
    ensures
        r@ == joined(parts.deep_view().take(n as int), separator@),
{
    let mut r = String::new();
    for i in 0..n
        invariant
            n <= parts@.len(),
            r@ == joined(parts.deep_view().take(i as int), separator@),
    {
        if i > 0 {
            r.append(separator);
        }
        r.append(parts[i].as_str());
        proof {
            let now = parts.deep_view().take(i + 1);
            assert(now.drop_last() == parts.deep_view().take(i as int));
            assert(now.last() == parts@[i as int]@);
            if i == 0 {
                assert(r@ == now[0]);
            }
        }
    }
    r
}

} // verus!
