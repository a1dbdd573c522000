//! A chord: an ordered collection of pitches.  Naming a chord sorts its
//! pitches by height, takes the lowest as the bass, and cycles every
//! member as a candidate root, classifying the relative interval form of
//! the whole chord (a plain name) and, when the root is not the bass, of
//! the chord without its bass (a slash name).

use vstd::prelude::*;

use crate::classify::classify_spec;
use crate::classify::offsets;
use crate::classify::views;
use crate::note::note_name;
use crate::note::note_of_midi;
use crate::note::notes_wf;
use crate::note::rel_offset;
use crate::note::Note;
use crate::note::NoteError;

verus! {

/// An ordered collection of sounded pitches.  Duplicates of the same pitch
/// class at different octaves are permitted.
pub struct Chord {
    pub notes: Vec<Note>,
}

impl View for Chord {
    type V = Seq<Note>;

    open spec fn view(&self) -> Seq<Note> {
        self.notes@
    }
}

/// Inserts `x` into `s` before the first element no lower than it.
pub open spec fn insert_sorted(s: Seq<Note>, x: Note) -> Seq<Note>
    decreases s.len(),
{
    if s.len() == 0 { seq![x] }
    else if x.height() <= s[0].height() { seq![x] + s }
    else { seq![s[0]] + insert_sorted(s.drop_first(), x) }
}

/// The pitches of `s` in ascending order of absolute height.
pub open spec fn sort_spec(s: Seq<Note>) -> Seq<Note>
    decreases s.len(),
{
    if s.len() == 0 { Seq::empty() } else { insert_sorted(sort_spec(s.drop_last()), s.last()) }
}

/// The relative interval form of a collection against a candidate root.
pub open spec fn rel_offsets(s: Seq<Note>, root: Note) -> Seq<int> {
    s.map_values(|x: Note| rel_offset(x, root))
}

/// The plain candidate at root position `i`: the root's name with the
/// classified suffix of the whole collection, when it classifies.
pub open spec fn plain_cand(s: Seq<Note>, i: int) -> Seq<Seq<char>> {
    match classify_spec(rel_offsets(s, s[i])) {
        Option::Some(sfx) => seq![note_name(s[i].index as int % 12) + sfx],
        Option::None => Seq::empty(),
    }
}

/// The slash candidate at root position `i`: only when the root's name
/// differs from the bass's name, the classified suffix of the collection
/// without its bass, written "root-suffix/bass".
pub open spec fn slash_cand(s: Seq<Note>, i: int) -> Seq<Seq<char>> {
    if note_name(s[i].index as int % 12) == note_name(s[0].index as int % 12) {
        Seq::empty()
    } else {
        match classify_spec(rel_offsets(s.drop_first(), s[i])) {
            Option::Some(sfx) => seq![
                note_name(s[i].index as int % 12) + sfx + "/"@ + note_name(s[0].index as int % 12)
            ],
            Option::None => Seq::empty(),
        }
    }
}

/// Both candidates of root position `i`, plain before slash.
pub open spec fn cand(s: Seq<Note>, i: int) -> Seq<Seq<char>> {
    plain_cand(s, i) + slash_cand(s, i)
}

/// The names emitted by the first `i` root positions, in order.
pub open spec fn names_upto(s: Seq<Note>, i: int) -> Seq<Seq<char>>
    decreases i,
{
    if i <= 0 { Seq::empty() } else { names_upto(s, i - 1) + cand(s, i - 1) }
}

/// All candidate names of a sorted collection.
pub open spec fn names_spec(s: Seq<Note>) -> Seq<Seq<char>> {
    names_upto(s, s.len() as int)
}

/// The pitches a sequence of raw note numbers stands for.
pub open spec fn notes_of_midi(ns: Seq<u8>) -> Seq<Note> {
    ns.map_values(|n: u8| note_of_midi(n))
}

/// Every raw note number is at least 21, the lowest representable pitch.
pub open spec fn midi_ok(ns: Seq<u8>) -> bool {
    forall|i: int| 0 <= i < ns.len() ==> ns[i] >= 21
}

/// Ascending by absolute height.
pub open spec fn sorted_by_height(s: Seq<Note>) -> bool {
    forall|i: int, j: int| 0 <= i < j < s.len() ==> s[i].height() <= s[j].height()
}

/// Every element of an insertion is the inserted pitch or one of the
/// pitches already present.
proof fn lemma_insert_sorted_elements(s: Seq<Note>, x: Note)
    ensures
        insert_sorted(s, x).len() == s.len() + 1,
        forall|k: int| 0 <= k < insert_sorted(s, x).len()
            ==> (#[trigger] insert_sorted(s, x)[k]) == x || s.contains(insert_sorted(s, x)[k]),
    decreases s.len(),
{
    if s.len() == 0 {
    } else if x.height() <= s[0].height() {
        assert forall|k: int| 0 <= k < insert_sorted(s, x).len()
            implies (#[trigger] insert_sorted(s, x)[k]) == x || s.contains(insert_sorted(s, x)[k])
        by {
            if k > 0 {
                assert(insert_sorted(s, x)[k] == s[k - 1]);
            }
        }
    } else {
        let d = s.drop_first();
        lemma_insert_sorted_elements(d, x);
        assert forall|k: int| 0 <= k < insert_sorted(s, x).len()
            implies (#[trigger] insert_sorted(s, x)[k]) == x || s.contains(insert_sorted(s, x)[k])
        by {
            if k > 0 {
                let e = insert_sorted(s, x)[k];
                assert(e == insert_sorted(d, x)[k - 1]);
                if e != x {
                    let w = choose|w: int| 0 <= w < d.len() && d[w] == e;
                    assert(s[w + 1] == e);
                }
            }
        }
    }
}

/// Insertion keeps a height-sorted sequence sorted.
proof fn lemma_insert_sorted_sorted(s: Seq<Note>, x: Note)
    requires
        sorted_by_height(s),
    ensures
        sorted_by_height(insert_sorted(s, x)),
    decreases s.len(),
{
    if s.len() == 0 {
    } else if x.height() <= s[0].height() {
    } else {
        let d = s.drop_first();
        lemma_insert_sorted_sorted(d, x);
        lemma_insert_sorted_elements(d, x);
        let r = insert_sorted(s, x);
        assert forall|i: int, j: int| 0 <= i < j < r.len() implies r[i].height() <= r[j].height()
        by {
            if i == 0 {
                let e = insert_sorted(d, x)[j - 1];
                if e != x {
                    let w = choose|w: int| 0 <= w < d.len() && d[w] == e;
                    assert(s[0].height() <= s[w + 1].height());
                }
            } else {
                assert(r[i] == insert_sorted(d, x)[i - 1]);
                assert(r[j] == insert_sorted(d, x)[j - 1]);
            }
        }
    }
}

/// Insertion adds exactly the inserted pitch to the collection.
proof fn lemma_insert_sorted_multiset(s: Seq<Note>, x: Note)
    ensures
        insert_sorted(s, x).to_multiset() == s.to_multiset().insert(x),
    decreases s.len(),
{
    broadcast use vstd::seq_lib::group_to_multiset_ensures;

    if s.len() == 0 {
        assert(seq![x] =~= Seq::<Note>::empty().push(x));
        assert(insert_sorted(s, x).to_multiset() =~= s.to_multiset().insert(x));
    } else if x.height() <= s[0].height() {
        assert(seq![x] + s =~= seq![x].add(s));
        vstd::seq_lib::lemma_multiset_commutative(seq![x], s);
        assert(seq![x] =~= Seq::<Note>::empty().push(x));
        assert(insert_sorted(s, x).to_multiset() =~= s.to_multiset().insert(x));
    } else {
        let d = s.drop_first();
        lemma_insert_sorted_multiset(d, x);
        vstd::seq_lib::lemma_multiset_commutative(seq![s[0]], insert_sorted(d, x));
        vstd::seq_lib::lemma_multiset_commutative(seq![s[0]], d);
        assert(seq![s[0]] + d =~= s);
        assert(seq![s[0]] =~= Seq::<Note>::empty().push(s[0]));
        assert(insert_sorted(s, x).to_multiset() =~= s.to_multiset().insert(x));
    }
}

/// The sorted form of a collection is ascending by height and holds
/// exactly the pitches given, multiplicity included.
pub proof fn lemma_sort_spec_ensures(s: Seq<Note>)
    ensures
        sorted_by_height(sort_spec(s)),
        sort_spec(s).to_multiset() == s.to_multiset(),
        sort_spec(s).len() == s.len(),
    decreases s.len(),
{
    broadcast use vstd::seq_lib::group_to_multiset_ensures;

    if s.len() == 0 {
    } else {
        let d = s.drop_last();
        lemma_sort_spec_ensures(d);
        lemma_insert_sorted_sorted(sort_spec(d), s.last());
        lemma_insert_sorted_multiset(sort_spec(d), s.last());
        lemma_insert_sorted_elements(sort_spec(d), s.last());
        assert(s =~= d.push(s.last()));
        assert(sort_spec(s).to_multiset() =~= s.to_multiset());
    }
}

/// Inserting before the first element no lower than `x` is the same as
/// splitting at that position.
proof fn lemma_insert_at(s: Seq<Note>, x: Note, j: int)
    requires
        0 <= j <= s.len(),
        forall|k: int| 0 <= k < j ==> s[k].height() < x.height(),
        j < s.len() ==> x.height() <= s[j].height(),
    ensures
        insert_sorted(s, x) == s.take(j) + seq![x] + s.skip(j),
    decreases j,
{
    if j == 0 {
        if s.len() == 0 {
            assert(insert_sorted(s, x) =~= s.take(0) + seq![x] + s.skip(0));
        } else {
            assert(insert_sorted(s, x) =~= s.take(0) + seq![x] + s.skip(0));
        }
    } else {
        let d = s.drop_first();
        assert(forall|k: int| 0 <= k < j - 1 ==> #[trigger] d[k].height() < x.height());
        lemma_insert_at(d, x, j - 1);
        assert(insert_sorted(s, x) == seq![s[0]] + insert_sorted(d, x));
        assert(seq![s[0]] + (d.take(j - 1) + seq![x] + d.skip(j - 1))
            =~= s.take(j) + seq![x] + s.skip(j));
    }
}

/// Sorts the pitches ascending by absolute height.
fn sort_notes(v: &mut Vec<Note>)
    requires
        notes_wf(old(v)@),
    ensures
        final(v)@ == sort_spec(old(v)@),
        final(v)@.len() == old(v)@.len(),
        notes_wf(final(v)@),
{
    let mut out: Vec<Note> = Vec::new();
    let mut i: usize = 0;
    while i < v.len()
        invariant
            i <= v@.len(),
            v@ == old(v)@,
            notes_wf(v@),
            out@ == sort_spec(v@.take(i as int)),
            out@.len() == i as int,
            notes_wf(out@),
        decreases v@.len() - i,
    {
        let x = v[i];
        assert(x.wf());
        let mut j: usize = 0;
        while j < out.len() && out[j].abs_height() < x.abs_height()
            invariant
                j <= out@.len(),
                notes_wf(out@),
                x.wf(),
                forall|k: int| 0 <= k < j ==> (#[trigger] out@[k]).height() < x.height(),
            decreases out@.len() - j,
        {
            j += 1;
        }
        proof {
            lemma_insert_at(out@, x, j as int);
        }
        let ghost prev = out@;
        out.insert(j, x);
        proof {
            assert(out@ =~= prev.take(j as int) + seq![x] + prev.skip(j as int));
            assert(v@.take(i as int + 1).drop_last() =~= v@.take(i as int));
            assert(v@.take(i as int + 1).last() == v@[i as int]);
            assert(out@ == sort_spec(v@.take(i as int + 1)));
        }
        i += 1;
    }
    proof {
        assert(v@.take(v@.len() as int) =~= v@);
    }
    *v = out;
}

impl Chord {
    /// Every candidate name of this chord: for each pitch as a candidate
    /// root, in ascending order, the plain name of the whole chord and —
    /// when the root's name differs from the bass's — the slash name of
    /// the chord without its bass.  Unordered in intent, possibly with
    /// duplicates; no deduplication is performed.  The chord must hold at
    /// least one pitch, since the lowest is taken as the bass.
    pub fn get_names(&self) -> (r: Vec<String>)
        requires
            self@.len() > 0,
            notes_wf(self@),
        ensures
            views(r@) == names_spec(sort_spec(self@)),
    {
        let mut names: Vec<String> = Vec::new();

        let mut notes: Vec<Note> = Vec::new();
        let mut i: usize = 0;
        while i < self.notes.len()
            invariant
                i <= self@.len(),
                notes@ == self@.take(i as int),
            decreases self@.len() - i,
        {
            notes.push(self.notes[i]);
            proof {
                assert(self@.take(i as int + 1) =~= self@.take(i as int).push(self@[i as int]));
            }
            i += 1;
        }
        proof {
            assert(self@.take(self@.len() as int) =~= self@);
        }
        sort_notes(&mut notes);
        let ghost sorted = notes@;

        let bass_name = notes[0].get_name();

        let mut i: usize = 0;
        while i < notes.len()
            invariant
                i <= sorted.len(),
                notes@ == sorted,
                sorted == sort_spec(self@),
                sorted.len() == self@.len(),
                0 < sorted.len(),
                notes_wf(sorted),
                bass_name@ == note_name(sorted[0].index as int % 12),
                views(names@) == names_upto(sorted, i as int),
            decreases sorted.len() - i,
        {
            let root = notes[i];
            assert(root.wf());

            // The relative form of the whole chord against this root.
            let mut rel: Vec<Note> = Vec::new();
            let mut j: usize = 0;
            while j < notes.len()
                invariant
                    j <= sorted.len(),
                    notes@ == sorted,
                    notes_wf(sorted),
                    root.wf(),
                    rel@.len() == j as int,
                    forall|k: int| 0 <= k < j ==> (#[trigger] rel@[k]).index as int
                        == rel_offset(sorted[k], root),
                    forall|k: int| 0 <= k < j ==> (#[trigger] rel@[k]).wf(),
                decreases sorted.len() - j,
            {
                rel.push(notes[j].relative_to(&root));
                j += 1;
            }
            proof {
                assert(offsets(rel@) =~= rel_offsets(sorted, root));
            }

            match Chord::get_name_from_relative_form(rel) {
                Option::Some(sfx) => {
                    let mut nm = root.get_name();
                    nm.append(sfx.as_str());
                    names.push(nm);
                    proof {
                        assert(views(names@) =~= names_upto(sorted, i as int) + plain_cand(sorted, i as int));
                    }
                }
                Option::None => {
                    proof {
                        assert(plain_cand(sorted, i as int) =~= Seq::<Seq<char>>::empty());
                        assert(views(names@) =~= names_upto(sorted, i as int) + plain_cand(sorted, i as int));
                    }
                }
            }

            let root_name = root.get_name();
            if !(root_name == bass_name) {
                // The relative form without the bass, for a slash name.
                let mut rel2: Vec<Note> = Vec::new();
                let mut j: usize = 1;
                while j < notes.len()
                    invariant
                        1 <= j <= sorted.len(),
                        notes@ == sorted,
                        notes_wf(sorted),
                        root.wf(),
                        rel2@.len() == j - 1,
                        forall|k: int| 0 <= k < j - 1 ==> (#[trigger] rel2@[k]).index as int
                            == rel_offset(sorted[k + 1], root),
                        forall|k: int| 0 <= k < j - 1 ==> (#[trigger] rel2@[k]).wf(),
                    decreases sorted.len() - j,
                {
                    rel2.push(notes[j].relative_to(&root));
                    j += 1;
                }
                proof {
                    assert(offsets(rel2@) =~= rel_offsets(sorted.drop_first(), root));
                }

                match Chord::get_name_from_relative_form(rel2) {
                    Option::Some(sfx) => {
                        let mut nm = root_name;
                        nm.append(sfx.as_str());
                        nm.append("/");
                        nm.append(bass_name.as_str());
                        names.push(nm);
                        proof {
                            assert(views(names@) =~= names_upto(sorted, i as int + 1));
                        }
                    }
                    Option::None => {
                        proof {
                            assert(slash_cand(sorted, i as int) =~= Seq::<Seq<char>>::empty());
                            assert(views(names@) =~= names_upto(sorted, i as int + 1));
                        }
                    }
                }
            } else {
                proof {
                    assert(slash_cand(sorted, i as int) =~= Seq::<Seq<char>>::empty());
                    assert(views(names@) =~= names_upto(sorted, i as int + 1));
                }
            }
            i += 1;
        }
        names
    }
}

/// Converts raw note numbers to pitches and returns every candidate name
/// of the resulting chord.  Fails with an out-of-range error as soon as a
/// note number lies below 21.  At least one note number must be given,
/// since a chord needs a bass.
pub fn get_chords(notes: &Vec<u8>) -> (r: Result<Vec<String>, NoteError>)
    requires
        notes@.len() > 0,
    ensures
        r is Ok <==> midi_ok(notes@),
        midi_ok(notes@) ==> (r matches Result::Ok(v)
            && views(v@) == names_spec(sort_spec(notes_of_midi(notes@)))),
        !midi_ok(notes@) ==> r == Result::<Vec<String>, NoteError>::Err(NoteError::OutOfRange),
{
    let mut ns: Vec<Note> = Vec::new();
    let mut i: usize = 0;
    while i < notes.len()
        invariant
            i <= notes@.len(),
            forall|k: int| 0 <= k < i ==> notes@[k] >= 21,
            ns@ == notes_of_midi(notes@.take(i as int)),
            notes_wf(ns@),
        decreases notes@.len() - i,
    {
        match Note::from_midi(notes[i]) {
            Result::Ok(n) => ns.push(n),
            Result::Err(e) => {
                return Result::Err(e);
            }
        }
        proof {
            assert(notes_of_midi(notes@.take(i as int + 1))
                =~= notes_of_midi(notes@.take(i as int)).push(note_of_midi(notes@[i as int])));
        }
        i += 1;
    }
    proof {
        assert(notes@.take(notes@.len() as int) =~= notes@);
    }
    let chord = Chord { notes: ns };
    Result::Ok(chord.get_names())
}

} // verus!
