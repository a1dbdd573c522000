//! General properties of the classification engine, stated and proved
//! against the same specification functions the executable contracts use.

use vstd::prelude::*;

use crate::chord::cand;
use crate::chord::names_spec;
use crate::chord::names_upto;
use crate::chord::plain_cand;
use crate::chord::rel_offsets;
use crate::chord::slash_cand;
use crate::classify::classify_spec;
use crate::note::note_name;
use crate::note::Note;

verus! {

/// An empty relative form is never named; a single offset — the root
/// alone — always names the bare root; and a two-offset form is never
/// named, even when one offset is the perfect fifth.
pub proof fn lemma_classify_small_forms(offs: Seq<int>)
    ensures
        offs.len() == 0 ==> classify_spec(offs) is None,
        offs.len() == 1 ==> classify_spec(offs) == Option::Some(Seq::<char>::empty()),
        offs.len() == 2 ==> classify_spec(offs) is None,
{
}

/// The relative interval form of a collection against any of its own
/// members — in particular against its lowest pitch — contains offset 0.
pub proof fn lemma_rel_form_contains_zero(s: Seq<Note>, i: int)
    requires
        0 <= i < s.len(),
    ensures
        rel_offsets(s, s[i])[i] == 0,
        rel_offsets(s, s[i]).contains(0),
{
    assert(rel_offsets(s, s[i])[i] == 0);
}

/// The number of plain candidates among the first `i` root positions.
pub open spec fn plain_count(s: Seq<Note>, i: int) -> int
    decreases i,
{
    if i <= 0 { 0 } else { plain_count(s, i - 1) + plain_cand(s, i - 1).len() }
}

/// The number of slash candidates among the first `i` root positions.
pub open spec fn slash_count(s: Seq<Note>, i: int) -> int
    decreases i,
{
    if i <= 0 { 0 } else { slash_count(s, i - 1) + slash_cand(s, i - 1).len() }
}

proof fn lemma_counts_upto(s: Seq<Note>, i: int)
    requires
        0 <= i,
    ensures
        names_upto(s, i).len() == plain_count(s, i) + slash_count(s, i),
        plain_count(s, i) <= i,
        slash_count(s, i) <= i,
    decreases i,
{
    if i > 0 {
        lemma_counts_upto(s, i - 1);
        assert(plain_cand(s, i - 1).len() <= 1);
        assert(slash_cand(s, i - 1).len() <= 1);
        assert(cand(s, i - 1).len() == plain_cand(s, i - 1).len() + slash_cand(s, i - 1).len());
    }
}

/// Root cycling is bounded: each pitch position contributes at most one
/// plain candidate, so a chord of `n` pitches yields at most `n` plain
/// names; and a slash candidate exists only at positions whose root name
/// differs from the bass's name.
pub proof fn lemma_root_cycling(s: Seq<Note>)
    ensures
        names_spec(s).len()
            == plain_count(s, s.len() as int) + slash_count(s, s.len() as int),
        plain_count(s, s.len() as int) <= s.len(),
        forall|i: int| 0 <= i < s.len()
            && note_name(s[i].index as int % 12) == note_name(s[0].index as int % 12)
            ==> (#[trigger] slash_cand(s, i)) == Seq::<Seq<char>>::empty(),
{
    lemma_counts_upto(s, s.len() as int);
}

} // verus!
