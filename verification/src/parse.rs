//! The speed limit of a segment, read from its `maxspeed` tag.

use crate::tags::{TagMap, Tags};
use crate::trail::{record, trail_of};
use std::str::Chars;
use vstd::prelude::*;
use vstd::std_specs::iter::IteratorSpec;

verus! {

/// The speed limit, in kilometres per hour, taken for a segment whose
/// `maxspeed` tag is missing or is not a plain number.
pub const DEFAULT_MAXSPEED_KMPH: usize = 50;

/// `c` is one of the ten decimal digits.
pub open spec fn is_digit(c: char) -> bool {
    '0' <= c <= '9'
}

/// The number that a sequence of decimal digits writes.
pub open spec fn decimal_value(digits: Seq<char>) -> nat
    decreases digits.len(),
{
    if digits.len() == 0 {
        0
    } else {
        decimal_value(digits.drop_last()) * 10 + (digits.last() as nat - '0' as nat) as nat
    }
}

/// `text` is one decimal digit or more, and nothing else.
pub open spec fn is_number(text: Seq<char>) -> bool {
    text.len() > 0 && forall|i: int| 0 <= i < text.len() ==> is_digit(#[trigger] text[i])
}

/// The speed that `text` writes: the number, where `text` is a plain number
/// that the machine's integers can hold, and none otherwise.
pub open spec fn written_speed(text: Seq<char>) -> Option<usize> {
    if is_number(text) && decimal_value(text) <= usize::MAX {
        Some(decimal_value(text) as usize)
    } else {
        None
    }
}

/// The speed limit of a segment in kilometres per hour: what its `maxspeed`
/// tag writes, and the default where the tag is missing or unreadable.
pub open spec fn maxspeed_kmph(tags: TagMap) -> usize {
    if tags.contains_key("maxspeed"@) && written_speed(tags["maxspeed"@]) is Some {
        written_speed(tags["maxspeed"@])->0
    } else {
        DEFAULT_MAXSPEED_KMPH
    }
}

/// The notes that reading the speed limit adds to the trail: one where the
/// default had to be taken, none otherwise.
pub open spec fn maxspeed_notes(tags: TagMap) -> Seq<Seq<char>> {
    if !tags.contains_key("maxspeed"@) {
        seq!["No maxspeed tag, so assuming 50 kmph"@]
    } else if written_speed(tags["maxspeed"@]) is None {
        seq!["Couldn't parse maxspeed="@ + tags["maxspeed"@] + ", so assuming 50 kmph"@]
    } else {
        seq![]
    }
}

/// A number is at least as large as the number written by its leading
/// digits.
proof fn lemma_decimal_value_grows(digits: Seq<char>, n: int)
    requires
        0 <= n <= digits.len(),
        forall|i: int| 0 <= i < digits.len() ==> is_digit(#[trigger] digits[i]),
    ensures
        decimal_value(digits.take(n)) <= decimal_value(digits),
    decreases digits.len() - n,
{
    if n == digits.len() {
        assert(digits.take(n) =~= digits);
    } else {
        let longer = digits.take(n + 1);
        assert(longer.drop_last() =~= digits.take(n));
        assert(is_digit(digits[n]));
        lemma_decimal_value_grows(digits, n + 1);
    }
}

/// Reads a speed written as a plain decimal number.
pub fn parse_kmph(text: &str) -> (r: Option<usize>)
    ensures
        r == written_speed(text@),
{
    if text.is_empty() {
        return None;
    }
    let mut rest: Chars<'_> = text.chars();
    let mut value: usize = 0;
    let ghost mut n: int = 0;
    loop
        invariant
            0 <= n <= text@.len(),
            text@.len() > 0,
            rest.remaining() == text@.skip(n),
            forall|i: int| 0 <= i < n ==> is_digit(#[trigger] text@[i]),
            value == decimal_value(text@.take(n)),
        decreases text@.len() - n,
    {
        broadcast use vstd::string::group_string_axioms;

        match rest.next() {
            None => {
                proof {
                    assert(text@.take(n) =~= text@);
                }
                return Some(value);
            },
            Some(c) => {
                if c < '0' || c > '9' {
                    assert(!is_digit(text@[n]));
                    return None;
                }
                let digit: usize = (c as u32 - '0' as u32) as usize;
                proof {
                    assert(text@.take(n + 1).drop_last() =~= text@.take(n));
                    assert(decimal_value(text@.take(n + 1)) == value * 10 + digit);
                    if is_number(text@) {
                        lemma_decimal_value_grows(text@, n + 1);
                    }
                }
                match value.checked_mul(10) {
                    None => {
                        return None;
                    },
                    Some(tens) => {
                        match tens.checked_add(digit) {
                            None => {
                                return None;
                            },
                            Some(next) => {
                                value = next;
                            },
                        }
                    },
                }
                proof {
                    n = n + 1;
                }
            },
        }
    }
}

/// Returns the speed limit of the segment in kilometres per hour. Where the
/// `maxspeed` tag is missing, or is not a plain number, the default is taken
/// and a note saying so is added to the trail.
pub fn get_maxspeed_kmph(tags: &Tags, msgs: &mut Vec<String>) -> (r: usize)
    ensures
        r == maxspeed_kmph(tags@),
        trail_of(final(msgs)@) == trail_of(old(msgs)@) + maxspeed_notes(tags@),
{
    match tags.get("maxspeed") {
        Some(maxspeed) => {
            match parse_kmph(maxspeed.as_str()) {
                Some(kmph) => {
                    assert(trail_of(msgs@) =~= trail_of(old(msgs)@) + maxspeed_notes(tags@));
                    kmph
                },
                None => {
                    let mut note = String::from_str("Couldn't parse maxspeed=");
                    note.append(maxspeed.as_str());
                    note.append(", so assuming 50 kmph");
                    record(msgs, note);
                    assert(trail_of(msgs@) =~= trail_of(old(msgs)@) + maxspeed_notes(tags@));
                    DEFAULT_MAXSPEED_KMPH
                },
            }
        },
        None => {
            record(msgs, String::from_str("No maxspeed tag, so assuming 50 kmph"));
            assert(trail_of(msgs@) =~= trail_of(old(msgs)@) + maxspeed_notes(tags@));
            DEFAULT_MAXSPEED_KMPH
        },
    }
}

} // verus!
