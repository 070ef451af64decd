//! Text helpers on characters: substring search, removal, and numbers written in digits.

use crate::results::law_removal_keeps_other_text;
use vstd::prelude::*;

verus! {

/// `needle` stands in `text` at offset `at`.
pub open spec fn occurs_at(text: Seq<char>, needle: Seq<char>, at: int) -> bool {
    0 <= at && at + needle.len() <= text.len() && text.subrange(at, at + needle.len()) == needle
}

/// `needle` stands somewhere in `text`.
pub open spec fn occurs(text: Seq<char>, needle: Seq<char>) -> bool {
    exists|at: int| occurs_at(text, needle, at)
}

/// `text` without the occurrences of `needle`, found from left to right without overlap.
pub open spec fn without(text: Seq<char>, needle: Seq<char>) -> Seq<char>
    recommends
        needle.len() > 0,
    decreases text.len(),
{
    if needle.len() == 0 || text.len() < needle.len() {
        text
    } else if occurs_at(text, needle, 0) {
        without(text.skip(needle.len() as int), needle)
    } else {
        seq![text[0]] + without(text.skip(1), needle)
    }
}

/// Neither a point nor a comma.
pub open spec fn not_separator(c: char) -> bool {
    c != '.' && c != ','
}

/// What the character `c` counts as a digit; 16 where it is no hexadecimal digit.
pub open spec fn digit_value(c: char) -> nat {
    if '0' <= c <= '9' {
        (c as int - '0' as int) as nat
    } else if 'a' <= c <= 'f' {
        (c as int - 'a' as int + 10) as nat
    } else if 'A' <= c <= 'F' {
        (c as int - 'A' as int + 10) as nat
    } else {
        16
    }
}

/// Every character of `digits` is a digit in the given radix (at most 16).
pub open spec fn all_digits(digits: Seq<char>, radix: nat) -> bool {
    forall|i: int| 0 <= i < digits.len() ==> #[trigger] digit_value(digits[i]) < radix
}

/// The number that `digits` writes, most significant digit first; 0 where there is none.
pub open spec fn number(digits: Seq<char>, radix: nat) -> nat
    decreases digits.len(),
{
    if digits.len() == 0 {
        0
    } else {
        number(digits.drop_last(), radix) * radix + digit_value(digits.last())
    }
}

/// The number that a string of decimal digits writes, where it fits in 64 bits. The empty
/// string writes 0.
pub open spec fn decimal_text(text: Seq<char>) -> Option<u64> {
    if all_digits(text, 10) && number(text, 10) <= u64::MAX {
        Some(number(text, 10) as u64)
    } else {
        None
    }
}

/// Appends one character, as `String::push` documents.
pub assume_specification[ String::push ](text: &mut String, c: char)
    ensures
        final(text)@ == old(text)@.push(c),
;

/// The characters of a string, in order.
pub fn chars_of(text: &str) -> (chars: Vec<char>)
    ensures
        chars@ == text@,
{
    let mut chars: Vec<char> = Vec::new();
    for c in iter: text.chars()
        invariant
            chars@ == iter.seq().take(iter.index() as int),
            iter.seq() == text@,
    {
        chars.push(c);
    }
    chars
}

/// Whether `needle` stands in `text` at offset `at`.
fn matches_at(text: &Vec<char>, needle: &Vec<char>, at: usize) -> (found: bool)
    requires
        at <= text@.len(),
    ensures
        found == occurs_at(text@, needle@, at as int),
{
    if text.len() - at < needle.len() {
        return false;
    }
    let mut i: usize = 0;
    while i < needle.len()
        invariant
            i <= needle@.len(),
            at + needle.len() <= text.len(),
            forall|j: int|
                0 <= j < i ==> #[trigger] text@.subrange(at as int, at + needle@.len())[j]
                    == needle@[j],
        decreases needle@.len() - i,
    {
        if text[at + i] != needle[i] {
            assert(text@.subrange(at as int, at + needle@.len())[i as int] != needle@[i as int]);
            return false;
        }
        i += 1;
    }
    assert(text@.subrange(at as int, at + needle@.len()) =~= needle@);
    true
}

/// Whether `needle` stands somewhere in `text`.
pub fn contains(text: &str, needle: &str) -> (found: bool)
    ensures
        found == occurs(text@, needle@),
        found <==> exists|at: int|
            0 <= at && at + needle@.len() <= text@.len() && #[trigger] text@.subrange(
                at,
                at + needle@.len(),
            ) == needle@,
{
    let text_chars = chars_of(text);
    let needle_chars = chars_of(needle);
    let mut at: usize = 0;
    while at < text_chars.len()
        invariant
            text_chars@ == text@,
            needle_chars@ == needle@,
            at <= text@.len(),
            forall|i: int| 0 <= i < at ==> !occurs_at(text@, needle@, i),
        decreases text@.len() - at,
    {
        if matches_at(&text_chars, &needle_chars, at) {
            return true;
        }
        at += 1;
    }
    proof {
        assert forall|i: int|
            0 <= i && i + needle@.len() <= text@.len() && #[trigger] text@.subrange(
                i,
                i + needle@.len(),
            ) == needle@ implies occurs_at(text@, needle@, at as int) by {
            assert(occurs_at(text@, needle@, i));
        }
    }
    matches_at(&text_chars, &needle_chars, at)
}

/// `text` without the occurrences of `needle`, found from left to right without overlap.
pub fn remove(text: &str, needle: &str) -> (rest: String)
    requires
        needle@.len() > 0,
    ensures
        rest@ == without(text@, needle@),
        !occurs(text@, needle@) ==> rest@ == text@,
{
    proof {
        if !occurs(text@, needle@) {
            law_removal_keeps_other_text(text@, needle@);
        }
    }
    let text = chars_of(text);
    let needle = chars_of(needle);
    let mut rest: String = String::new();
    let mut at: usize = 0;
    assert(text@.skip(0) =~= text@);
    while at < text.len()
        invariant
            at <= text@.len(),
            needle@.len() > 0,
            rest@ + without(text@.skip(at as int), needle@) == without(text@, needle@),
        decreases text@.len() - at,
    {
        let ghost left = text@.skip(at as int);
        if matches_at(&text, &needle, at) {
            proof {
                assert(left.subrange(0, needle@.len() as int) =~= text@.subrange(
                    at as int,
                    at + needle@.len(),
                ));
                assert(left.skip(needle@.len() as int) =~= text@.skip(at + needle@.len()));
            }
            at += needle.len();
        } else {
            let ghost before = rest@;
            rest.push(text[at]);
            proof {
                if left.len() >= needle@.len() {
                    assert(left.subrange(0, needle@.len() as int) =~= text@.subrange(
                        at as int,
                        at + needle@.len(),
                    ));
                }
                assert(left.skip(1) =~= text@.skip(at + 1));
                assert(without(left, needle@) =~= seq![left[0]] + without(left.skip(1), needle@));
                assert(before + without(left, needle@) =~= rest@ + without(left.skip(1), needle@));
            }
            at += 1;
        }
    }
    assert(rest@ + without(text@.skip(at as int), needle@) =~= rest@);
    rest
}

/// `text` without points and commas.
pub fn without_separators(text: &str) -> (rest: String)
    ensures
        rest@ == text@.filter(|c: char| not_separator(c)),
        rest@ == text@.filter(|c: char| c != '.' && c != ','),
{
    assert((|c: char| not_separator(c)) =~= (|c: char| c != '.' && c != ','));
    let text = chars_of(text);
    let mut rest: String = String::new();
    let mut i: usize = 0;
    let ghost keep = |c: char| not_separator(c);
    proof {
        reveal(Seq::filter);
    }
    while i < text.len()
        invariant
            i <= text@.len(),
            keep == (|c: char| not_separator(c)),
            rest@ == text@.take(i as int).filter(keep),
        decreases text@.len() - i,
    {
        let c = text[i];
        proof {
            reveal(Seq::filter);
            assert(text@.take(i + 1).drop_last() =~= text@.take(i as int));
        }
        if c != '.' && c != ',' {
            rest.push(c);
        }
        i += 1;
    }
    assert(text@.take(i as int) =~= text@);
    rest
}

} // verus!
