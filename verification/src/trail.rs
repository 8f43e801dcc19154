//! The trail: the ordered notes that explain a classification.

use vstd::prelude::*;

verus! {

/// The notes held by a trail, oldest first, each as its characters.
pub open spec fn trail_of(msgs: Seq<String>) -> Seq<Seq<char>> {
    msgs.map_values(|note: String| note@)
}

/// Appends one note to the trail.
pub fn record(msgs: &mut Vec<String>, note: String)
    ensures
        trail_of(final(msgs)@) == trail_of(old(msgs)@).push(note@),
{
    msgs.push(note);
    assert(trail_of(msgs@) =~= trail_of(old(msgs)@).push(note@));
}

} // verus!
