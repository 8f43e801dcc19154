//! Comparisons of strings, character by character.

use std::str::Chars;
use vstd::prelude::*;
use vstd::std_specs::iter::IteratorSpec;

verus! {

/// The dictionary order on strings, strict: `a` comes before `b` when `a` is
/// a proper leading part of `b`, or when at the first place where they
/// differ `a` holds the character with the smaller code point.
pub open spec fn text_before(a: Seq<char>, b: Seq<char>) -> bool
    decreases a.len(),
{
    if b.len() == 0 {
        false
    } else if a.len() == 0 {
        true
    } else if a[0] != b[0] {
        a[0] < b[0]
    } else {
        text_before(a.drop_first(), b.drop_first())
    }
}

/// No string comes before itself, and of two strings at most one comes
/// before the other.
pub proof fn lemma_text_before_asymmetric(a: Seq<char>, b: Seq<char>)
    ensures
        !(text_before(a, b) && text_before(b, a)),
    decreases a.len(),
{
    if a.len() > 0 && b.len() > 0 && a[0] == b[0] {
        lemma_text_before_asymmetric(a.drop_first(), b.drop_first());
    }
}

/// Of two different strings one comes before the other.
pub proof fn lemma_text_before_total(a: Seq<char>, b: Seq<char>)
    ensures
        a == b || text_before(a, b) || text_before(b, a),
    decreases a.len(),
{
    if a.len() > 0 && b.len() > 0 && a[0] == b[0] {
        lemma_text_before_total(a.drop_first(), b.drop_first());
        if a.drop_first() == b.drop_first() {
            assert(a =~= seq![a[0]] + a.drop_first());
            assert(b =~= seq![b[0]] + b.drop_first());
        }
    } else if a.len() == 0 && b.len() == 0 {
        assert(a =~= b);
    }
}

/// The order is transitive.
pub proof fn lemma_text_before_transitive(a: Seq<char>, b: Seq<char>, c: Seq<char>)
    requires
        text_before(a, b),
        text_before(b, c),
    ensures
        text_before(a, c),
    decreases a.len(),
{
    if a.len() > 0 && a[0] == b[0] && b[0] == c[0] {
        lemma_text_before_transitive(a.drop_first(), b.drop_first(), c.drop_first());
    }
}

/// Tells whether `prefix` is a leading part of `s`.
pub fn starts_with(s: &str, prefix: &str) -> (r: bool)
    ensures
        r == prefix@.is_prefix_of(s@),
{
    let mut rest: Chars<'_> = s.chars();
    let mut want: Chars<'_> = prefix.chars();
    let ghost mut n: int = 0;
    loop
        invariant
            0 <= n <= s@.len(),
            n <= prefix@.len(),
            rest.remaining() == s@.skip(n),
            want.remaining() == prefix@.skip(n),
            s@.take(n) == prefix@.take(n),
        decreases prefix@.len() - n,
    {
        broadcast use vstd::string::group_string_axioms;

        match want.next() {
            None => {
                return true;
            },
            Some(p) => {
                match rest.next() {
                    None => {
                        return false;
                    },
                    Some(c) => {
                        if c != p {
                            return false;
                        }
                        proof {
                            n = n + 1;
                        }
                    },
                }
            },
        }
    }
}

/// Tells whether two strings hold the same characters.
pub fn same_text(a: &str, b: &str) -> (r: bool)
    ensures
        r == (a@ == b@),
{
    let mut left: Chars<'_> = a.chars();
    let mut right: Chars<'_> = b.chars();
    let ghost mut n: int = 0;
    loop
        invariant
            0 <= n <= a@.len(),
            n <= b@.len(),
            left.remaining() == a@.skip(n),
            right.remaining() == b@.skip(n),
            a@.take(n) == b@.take(n),
        decreases a@.len() - n,
    {
        broadcast use vstd::string::group_string_axioms;

        match left.next() {
            None => {
                let other = right.next();
                proof {
                    assert(a@.take(n) =~= a@);
                    if other is None {
                        assert(b@.take(n) =~= b@);
                    }
                }
                return other.is_none();
            },
            Some(x) => {
                match right.next() {
                    None => {
                        return false;
                    },
                    Some(y) => {
                        if x != y {
                            return false;
                        }
                        proof {
                            n = n + 1;
                        }
                    },
                }
            },
        }
    }
}

/// Tells whether `a` comes before `b` in the dictionary order.
pub fn precedes(a: &str, b: &str) -> (r: bool)
    ensures
        r == text_before(a@, b@),
{
    let mut left: Chars<'_> = a.chars();
    let mut right: Chars<'_> = b.chars();
    let ghost mut n: int = 0;
    loop
        invariant
            0 <= n <= a@.len(),
            n <= b@.len(),
            left.remaining() == a@.skip(n),
            right.remaining() == b@.skip(n),
            text_before(a@, b@) == text_before(a@.skip(n), b@.skip(n)),
        decreases b@.len() - n,
    {
        broadcast use vstd::string::group_string_axioms;

        match right.next() {
            None => {
                return false;
            },
            Some(y) => {
                match left.next() {
                    None => {
                        return true;
                    },
                    Some(x) => {
                        if x != y {
                            return x < y;
                        }
                        proof {
                            assert(a@.skip(n).drop_first() =~= a@.skip(n + 1));
                            assert(b@.skip(n).drop_first() =~= b@.skip(n + 1));
                            n = n + 1;
                        }
                    },
                }
            },
        }
    }
}

} // verus!
