//! The chord classifier: a priority-ordered decision table over the twelve
//! semitone offsets relative to an assumed root.  Each offset can satisfy at
//! most one role — third, seventh, ninth, fifth, eleventh or thirteenth —
//! and a successful match consumes its offset so later stages cannot reuse
//! it.  The resolved roles are composed into a quality/extension string
//! with alteration, addition and omission tokens.

use vstd::prelude::*;

use crate::chord::Chord;
use crate::interval::offset_of;
use crate::interval::third_suffix;
use crate::interval::Interval;
use crate::note::notes_wf;
use crate::note::Note;

verus! {

/// The semitone offsets a relative form contributes, in order.
pub open spec fn offsets(s: Seq<Note>) -> Seq<int> {
    s.map_values(|n: Note| n.index as int)
}

/// The presence set of a collection of offsets: multiplicity and order are
/// immaterial to classification.
pub open spec fn offset_set(offs: Seq<int>) -> Set<int> {
    Set::new(|k: int| offs.contains(k))
}

/// Removes the offset a matched role consumed; a failed stage consumes
/// nothing.
pub open spec fn consume(s: Set<int>, role: Option<Interval>) -> Set<int> {
    match role {
        Option::Some(iv) => s.remove(offset_of(iv)),
        Option::None => s,
    }
}

/// The third stage: major third, minor third, perfect fourth, major
/// second, minor second — first offset present wins.
pub open spec fn third_of(s: Set<int>) -> Option<Interval> {
    if s.contains(4) { Option::Some(Interval::MajorThird) }
    else if s.contains(3) { Option::Some(Interval::MinorThird) }
    else if s.contains(5) { Option::Some(Interval::PerfectForth) }
    else if s.contains(2) { Option::Some(Interval::MajorSecond) }
    else if s.contains(1) { Option::Some(Interval::MinorSecond) }
    else { Option::None }
}

pub open spec fn after_third(s: Set<int>) -> Set<int> {
    consume(s, third_of(s))
}

/// The seventh-ish stage: major seventh, minor seventh, sixth, sharp fifth
/// read as a flat sixth.
pub open spec fn seventh_of(s: Set<int>) -> Option<Interval> {
    let t = after_third(s);
    if t.contains(11) { Option::Some(Interval::MajorSeventh) }
    else if t.contains(10) { Option::Some(Interval::MinorSeventh) }
    else if t.contains(9) { Option::Some(Interval::Sixth) }
    else if t.contains(8) { Option::Some(Interval::SharpFifth) }
    else { Option::None }
}

pub open spec fn after_seventh(s: Set<int>) -> Set<int> {
    consume(after_third(s), seventh_of(s))
}

/// The ninth stage re-tests the second and minor-third offsets that the
/// third stage did not consume: flat ninth, ninth, sharp ninth.
pub open spec fn ninth_of(s: Set<int>) -> Option<Interval> {
    let t = after_seventh(s);
    if t.contains(1) { Option::Some(Interval::MinorSecond) }
    else if t.contains(2) { Option::Some(Interval::MajorSecond) }
    else if t.contains(3) { Option::Some(Interval::MinorThird) }
    else { Option::None }
}

pub open spec fn after_ninth(s: Set<int>) -> Set<int> {
    consume(after_seventh(s), ninth_of(s))
}

/// The fifth stage: perfect fifth, tritone, sharp fifth.
pub open spec fn fifth_of(s: Set<int>) -> Option<Interval> {
    let t = after_ninth(s);
    if t.contains(7) { Option::Some(Interval::PerfectFifth) }
    else if t.contains(6) { Option::Some(Interval::Tritone) }
    else if t.contains(8) { Option::Some(Interval::SharpFifth) }
    else { Option::None }
}

pub open spec fn after_fifth(s: Set<int>) -> Set<int> {
    consume(after_ninth(s), fifth_of(s))
}

/// The eleventh stage: perfect fourth, tritone.
pub open spec fn eleventh_of(s: Set<int>) -> Option<Interval> {
    let t = after_fifth(s);
    if t.contains(5) { Option::Some(Interval::PerfectForth) }
    else if t.contains(6) { Option::Some(Interval::Tritone) }
    else { Option::None }
}

pub open spec fn after_eleventh(s: Set<int>) -> Set<int> {
    consume(after_fifth(s), eleventh_of(s))
}

/// The thirteenth stage: sixth, sharp fifth read as a flat thirteenth.
pub open spec fn thirteenth_of(s: Set<int>) -> Option<Interval> {
    let t = after_eleventh(s);
    if t.contains(9) { Option::Some(Interval::Sixth) }
    else if t.contains(8) { Option::Some(Interval::SharpFifth) }
    else { Option::None }
}

/// Minor third over a tritone: a diminished chord.
pub open spec fn is_dim(third: Option<Interval>, fifth: Option<Interval>) -> bool {
    third == Option::Some(Interval::MinorThird) && fifth == Option::Some(Interval::Tritone)
}

/// A suspended quality: the third role is a second or a fourth.
pub open spec fn is_sus(third: Option<Interval>) -> bool {
    ||| third == Option::Some(Interval::MinorSecond)
    ||| third == Option::Some(Interval::MajorSecond)
    ||| third == Option::Some(Interval::PerfectForth)
}

/// The quality token: "dim" for minor third over tritone, "aug" for major
/// third over sharp fifth, otherwise the third role's own suffix, and
/// nothing when there is no third.
pub open spec fn quality_seq(third: Option<Interval>, fifth: Option<Interval>) -> Seq<char> {
    if is_dim(third, fifth) { "dim"@ }
    else if third == Option::Some(Interval::MajorThird) && fifth == Option::Some(Interval::SharpFifth) { "aug"@ }
    else {
        match third {
            Option::Some(t) => third_suffix(t),
            Option::None => Seq::<char>::empty(),
        }
    }
}

/// The extension token of a chord name, tracked symbolically until the name
/// is assembled.
#[derive(Clone, Copy, PartialEq, Eq, Debug)]
pub enum Ext {
    Empty,
    Maj7,
    Dom7,
    Six,
    FlatSix,
    Dom9,
    Maj9,
    Dom11,
    Maj11,
    Dom13,
    Maj13,
}

/// The text each extension token contributes.
pub open spec fn ext_seq(e: Ext) -> Seq<char> {
    match e {
        Ext::Empty => Seq::<char>::empty(),
        Ext::Maj7 => "maj7"@,
        Ext::Dom7 => "7"@,
        Ext::Six => "6"@,
        Ext::FlatSix => "b6"@,
        Ext::Dom9 => "9"@,
        Ext::Maj9 => "maj9"@,
        Ext::Dom11 => "11"@,
        Ext::Maj11 => "maj11"@,
        Ext::Dom13 => "13"@,
        Ext::Maj13 => "maj13"@,
    }
}

/// The base extension, from the seventh-ish role.  A diminished chord's
/// sixth above the root is conventionally its seventh, so it reads "7".
pub open spec fn base_ext(seventh: Option<Interval>, dim: bool) -> Ext {
    match seventh {
        Option::Some(Interval::MajorSeventh) => Ext::Maj7,
        Option::Some(Interval::MinorSeventh) => Ext::Dom7,
        Option::Some(Interval::Sixth) => if dim { Ext::Dom7 } else { Ext::Six },
        Option::Some(Interval::SharpFifth) => Ext::FlatSix,
        _ => Ext::Empty,
    }
}

/// A major second in the ninth role upgrades a plain or major seventh to
/// the matching ninth.
pub open spec fn ext_after_ninth(e: Ext, ninth: Option<Interval>) -> Ext {
    if ninth == Option::Some(Interval::MajorSecond) {
        if e == Ext::Dom7 { Ext::Dom9 }
        else if e == Ext::Maj7 { Ext::Maj9 }
        else { e }
    } else { e }
}

/// A perfect fourth in the eleventh role upgrades a seventh or ninth to the
/// matching eleventh.
pub open spec fn ext_after_eleventh(e: Ext, eleventh: Option<Interval>) -> Ext {
    if eleventh == Option::Some(Interval::PerfectForth) {
        if e == Ext::Dom9 || e == Ext::Dom7 { Ext::Dom11 }
        else if e == Ext::Maj9 || e == Ext::Maj7 { Ext::Maj11 }
        else { e }
    } else { e }
}

pub open spec fn is_majorish(e: Ext) -> bool {
    e == Ext::Maj7 || e == Ext::Maj9 || e == Ext::Maj11
}

/// A sixth in the thirteenth role upgrades an extension that already
/// denotes a seventh, ninth, eleventh or major form to the matching
/// thirteenth.  `has7` records whether the base extension was a seventh.
pub open spec fn ext_after_thirteenth(e: Ext, has7: bool, thirteenth: Option<Interval>) -> Ext {
    if thirteenth == Option::Some(Interval::Sixth)
        && (has7 || e == Ext::Dom9 || e == Ext::Maj9 || e == Ext::Dom11 || e == Ext::Maj11
            || is_majorish(e)) {
        if is_majorish(e) { Ext::Maj13 } else { Ext::Dom13 }
    } else { e }
}

/// A tritone or sharp fifth in the fifth role is noted as an alteration,
/// unless the quality ("dim", "aug") already implies it.
pub open spec fn fifth_alterations(fifth: Option<Interval>, third: Option<Interval>) -> Seq<Seq<char>> {
    match (fifth, third) {
        (Option::Some(Interval::Tritone), Option::Some(Interval::MinorThird)) => Seq::empty(),
        (Option::Some(Interval::SharpFifth), Option::Some(Interval::MajorThird)) => Seq::empty(),
        (Option::Some(Interval::Tritone), _) => seq!["b5"@],
        (Option::Some(Interval::SharpFifth), _) => seq!["#5"@],
        _ => Seq::empty(),
    }
}

/// The addition token the ninth role contributes, against the base
/// extension `e0`.
pub open spec fn ninth_additions(ninth: Option<Interval>, e0: Ext, sus: bool) -> Seq<Seq<char>> {
    match ninth {
        Option::Some(Interval::MajorSecond) => {
            if e0 == Ext::Six || e0 == Ext::FlatSix { seq!["/9"@] }
            else if e0 == Ext::Empty { seq!["add9"@] }
            else { Seq::empty() }
        }
        Option::Some(Interval::MinorSecond) => {
            if e0 == Ext::Empty && !sus { seq!["addb9"@] } else { Seq::empty() }
        }
        Option::Some(Interval::MinorThird) => {
            if e0 == Ext::Empty { seq!["add#9"@] } else { Seq::empty() }
        }
        _ => Seq::empty(),
    }
}

/// The alteration token the ninth role contributes.
pub open spec fn ninth_alterations(ninth: Option<Interval>, e0: Ext, sus: bool) -> Seq<Seq<char>> {
    match ninth {
        Option::Some(Interval::MinorSecond) => {
            if e0 == Ext::Empty && !sus { Seq::empty() } else { seq!["b9"@] }
        }
        Option::Some(Interval::MinorThird) => {
            if e0 == Ext::Empty { Seq::empty() } else { seq!["#9"@] }
        }
        _ => Seq::empty(),
    }
}

/// The addition token a perfect fourth in the eleventh role contributes,
/// against the extension `e1` as refined by the ninth.
pub open spec fn eleventh_additions(eleventh: Option<Interval>, e1: Ext) -> Seq<Seq<char>> {
    if eleventh == Option::Some(Interval::PerfectForth) {
        if e1 == Ext::Six || e1 == Ext::FlatSix { seq!["/11"@] }
        else if e1 == Ext::Empty { seq!["add11"@] }
        else { Seq::empty() }
    } else { Seq::empty() }
}

/// A tritone in the eleventh role is always recorded as the alteration
/// "#11", whether or not a base extension exists.
pub open spec fn eleventh_alterations(eleventh: Option<Interval>) -> Seq<Seq<char>> {
    if eleventh == Option::Some(Interval::Tritone) { seq!["#11"@] } else { Seq::empty() }
}

/// A sharp fifth in the thirteenth role is noted "b13" unconditionally.
pub open spec fn thirteenth_alterations(thirteenth: Option<Interval>) -> Seq<Seq<char>> {
    if thirteenth == Option::Some(Interval::SharpFifth) { seq!["b13"@] } else { Seq::empty() }
}

/// Omissions: "no3" when no third role was found, "no9" when the extension
/// denotes an eleventh or thirteenth but no ninth role was found.
pub open spec fn omission_tokens(third: Option<Interval>, ninth: Option<Interval>, ef: Ext) -> Seq<Seq<char>> {
    (if third is None { seq!["no3"@] } else { Seq::empty() })
        + (if ninth is None && (ef == Ext::Dom13 || ef == Ext::Maj13 || ef == Ext::Dom11 || ef == Ext::Maj11) {
            seq!["no9"@]
        } else { Seq::empty() })
}

/// Concatenation of a list of token texts.
pub open spec fn concat_strs(ts: Seq<Seq<char>>) -> Seq<char>
    decreases ts.len(),
{
    if ts.len() == 0 { Seq::empty() } else { concat_strs(ts.drop_last()) + ts.last() }
}

/// Comma-joined token texts.
pub open spec fn join_comma(ts: Seq<Seq<char>>) -> Seq<char>
    decreases ts.len(),
{
    if ts.len() == 0 { Seq::empty() }
    else if ts.len() == 1 { ts[0] }
    else { join_comma(ts.drop_last()) + ","@ + ts.last() }
}

/// The addition tokens contributed by the ninth and eleventh roles, in
/// discovery order.
pub open spec fn additions_from(t: Option<Interval>, sv: Option<Interval>, n: Option<Interval>, f: Option<Interval>, e: Option<Interval>) -> Seq<Seq<char>> {
    let e0 = base_ext(sv, is_dim(t, f));
    let e1 = ext_after_ninth(e0, n);
    ninth_additions(n, e0, is_sus(t)) + eleventh_additions(e, e1)
}

/// The alteration and omission tokens, in discovery order: fifth, ninth,
/// eleventh, thirteenth alterations, then omissions.
pub open spec fn modifiers_from(t: Option<Interval>, sv: Option<Interval>, n: Option<Interval>, f: Option<Interval>, e: Option<Interval>, th: Option<Interval>) -> Seq<Seq<char>> {
    let e0 = base_ext(sv, is_dim(t, f));
    let e1 = ext_after_ninth(e0, n);
    let e2 = ext_after_eleventh(e1, e);
    let ef = ext_after_thirteenth(e2, e0 == Ext::Dom7 || e0 == Ext::Maj7, th);
    fifth_alterations(f, t)
        + ninth_alterations(n, e0, is_sus(t))
        + eleventh_alterations(e)
        + thirteenth_alterations(th)
        + omission_tokens(t, n, ef)
}

/// The extension after all refinements, from the resolved roles.
pub open spec fn ext_from(sv: Option<Interval>, t: Option<Interval>, n: Option<Interval>, f: Option<Interval>, e: Option<Interval>, th: Option<Interval>) -> Ext {
    let e0 = base_ext(sv, is_dim(t, f));
    let e1 = ext_after_ninth(e0, n);
    let e2 = ext_after_eleventh(e1, e);
    ext_after_thirteenth(e2, e0 == Ext::Dom7 || e0 == Ext::Maj7, th)
}

/// The assembled name suffix for resolved roles: extension before a
/// suspended quality, quality before the extension otherwise, then the
/// addition tokens, then the alterations and omissions in parentheses.
pub open spec fn name_from_roles(t: Option<Interval>, sv: Option<Interval>, n: Option<Interval>, f: Option<Interval>, e: Option<Interval>, th: Option<Interval>) -> Seq<char> {
    let q = quality_seq(t, f);
    let x = ext_seq(ext_from(sv, t, n, f, e, th));
    let core = if is_sus(t) { x + q } else { q + x };
    let body = core + concat_strs(additions_from(t, sv, n, f, e));
    let mods = modifiers_from(t, sv, n, f, e, th);
    if mods.len() == 0 { body } else { body + "("@ + join_comma(mods) + ")"@ }
}

/// The assembled name suffix of a presence set.
pub open spec fn name_of(s: Set<int>) -> Seq<char> {
    name_from_roles(third_of(s), seventh_of(s), ninth_of(s), fifth_of(s), eleventh_of(s), thirteenth_of(s))
}

/// What the classifier returns for a relative form: nothing for an empty
/// form, the bare root for a single offset, nothing for a two-offset form
/// (a two-note dyad is never named), and the assembled name otherwise.
pub open spec fn classify_spec(offs: Seq<int>) -> Option<Seq<char>> {
    if offs.len() == 0 { Option::None }
    else if offs.len() == 1 { Option::Some(Seq::<char>::empty()) }
    else if offs.len() == 2 { Option::None }
    else { Option::Some(name_of(offset_set(offs))) }
}

/// The views of a list of strings.
pub open spec fn views(v: Seq<String>) -> Seq<Seq<char>> {
    v.map_values(|s: String| s@)
}

/// The quality string for the resolved third and fifth roles.
fn quality_string(third: Option<Interval>, fifth: Option<Interval>) -> (r: String)
    ensures
        r@ == quality_seq(third, fifth),
{
    match (third, fifth) {
        (Option::Some(Interval::MinorThird), Option::Some(Interval::Tritone)) => String::from_str("dim"),
        (Option::Some(Interval::MajorThird), Option::Some(Interval::SharpFifth)) => String::from_str("aug"),
        (Option::Some(t), _) => t.get_third(),
        (Option::None, _) => String::new(),
    }
}

/// The extension string for an extension token.
fn ext_string(e: Ext) -> (r: String)
    ensures
        r@ == ext_seq(e),
{
    match e {
        Ext::Empty => String::new(),
        Ext::Maj7 => String::from_str("maj7"),
        Ext::Dom7 => String::from_str("7"),
        Ext::Six => String::from_str("6"),
        Ext::FlatSix => String::from_str("b6"),
        Ext::Dom9 => String::from_str("9"),
        Ext::Maj9 => String::from_str("maj9"),
        Ext::Dom11 => String::from_str("11"),
        Ext::Maj11 => String::from_str("maj11"),
        Ext::Dom13 => String::from_str("13"),
        Ext::Maj13 => String::from_str("maj13"),
    }
}

/// Appends every string of `ts` to `res`, in order.
fn append_all(res: &mut String, ts: &Vec<String>)
    ensures
        final(res)@ == old(res)@ + concat_strs(views(ts@)),
{
    let ghost base = res@;
    let mut i: usize = 0;
    while i < ts.len()
        invariant
            i <= ts@.len(),
            res@ == base + concat_strs(views(ts@).take(i as int)),
        decreases ts@.len() - i,
    {
        res.append(ts[i].as_str());
        proof {
            let v = views(ts@);
            assert(v.take(i as int + 1).drop_last() =~= v.take(i as int));
            assert(v.take(i as int + 1).last() == ts@[i as int]@);
        }
        i += 1;
    }
    proof {
        assert(views(ts@).take(ts@.len() as int) =~= views(ts@));
    }
}

/// Joins the strings of `ts` with commas.
fn join_with_commas(ts: &Vec<String>) -> (r: String)
    ensures
        r@ == join_comma(views(ts@)),
{
    let mut r = String::new();
    let mut i: usize = 0;
    while i < ts.len()
        invariant
            i <= ts@.len(),
            r@ == join_comma(views(ts@).take(i as int)),
        decreases ts@.len() - i,
    {
        if i > 0 {
            r.append(",");
        }
        r.append(ts[i].as_str());
        proof {
            let v = views(ts@);
            assert(v.take(i as int + 1).drop_last() =~= v.take(i as int));
            assert(v.take(i as int + 1).last() == ts@[i as int]@);
            if i == 0 {
                assert(v.take(1)[0] == ts@[0]@);
                assert(Seq::<char>::empty() + ts@[0]@ =~= ts@[0]@);
            }
        }
        i += 1;
    }
    proof {
        assert(views(ts@).take(ts@.len() as int) =~= views(ts@));
    }
    r
}

/// Resolves the six roles of a relative form's presence set, in priority
/// order, each successful match consuming its offset.
#[verifier::rlimit(100)]
fn resolve_roles(relative_form: &Vec<Note>) -> (r: (Option<Interval>, Option<Interval>, Option<Interval>, Option<Interval>, Option<Interval>, Option<Interval>))
    requires
        notes_wf(relative_form@),
    ensures
        ({
            let s0 = offset_set(offsets(relative_form@));
            r == (third_of(s0), seventh_of(s0), ninth_of(s0), fifth_of(s0), eleventh_of(s0),
            thirteenth_of(s0))
        }),
{
    let ghost offs: Seq<int> = offsets(relative_form@);
    let ghost s0: Set<int> = offset_set(offs);

    // The presence table: one slot per semitone offset.
    let mut has_interval: Vec<bool> = Vec::new();
    let mut k: usize = 0;
    while k < 12
        invariant
            k <= 12,
            has_interval@.len() == k as int,
            forall|j: int| 0 <= j < k ==> !(#[trigger] has_interval@[j]),
        decreases 12 - k,
    {
        has_interval.push(false);
        k += 1;
    }

    let mut i: usize = 0;
    while i < relative_form.len()
        invariant
            i <= relative_form@.len(),
            has_interval@.len() == 12,
            notes_wf(relative_form@),
            offs == offsets(relative_form@),
            forall|j: int| 0 <= j < 12 ==>
                (#[trigger] has_interval@[j] == offs.take(i as int).contains(j)),
        decreases relative_form@.len() - i,
    {
        let idx = relative_form[i].index;
        assert(relative_form@[i as int].wf());
        has_interval[idx] = true;
        proof {
            assert forall|j: int| 0 <= j < 12 implies
                #[trigger] offs.take(i as int + 1).contains(j)
                    == (offs.take(i as int).contains(j) || j == idx as int)
            by {
                let t1 = offs.take(i as int + 1);
                let t0 = offs.take(i as int);
                if t0.contains(j) {
                    let w = choose|w: int| 0 <= w < t0.len() && t0[w] == j;
                    assert(t1[w] == j);
                }
                if j == idx as int {
                    assert(t1[i as int] == j);
                }
                if t1.contains(j) {
                    let w = choose|w: int| 0 <= w < t1.len() && t1[w] == j;
                    if w < i as int {
                        assert(t0[w] == j);
                    } else {
                        assert(j == idx as int);
                    }
                }
            }
        }
        i += 1;
    }
    proof {
        assert(offs.take(relative_form@.len() as int) =~= offs);
        assert(forall|j: int| 0 <= j < 12 ==>
            (#[trigger] has_interval@[j] == s0.contains(j)));
    }

    // Resolve the roles by priority; each match clears its slot.
    let third: Option<Interval> = if has_interval[4] {
        has_interval[4] = false;
        Option::Some(Interval::MajorThird)
    } else if has_interval[3] {
        has_interval[3] = false;
        Option::Some(Interval::MinorThird)
    } else if has_interval[5] {
        has_interval[5] = false;
        Option::Some(Interval::PerfectForth)
    } else if has_interval[2] {
        has_interval[2] = false;
        Option::Some(Interval::MajorSecond)
    } else if has_interval[1] {
        has_interval[1] = false;
        Option::Some(Interval::MinorSecond)
    } else {
        Option::None
    };
    proof {
        assert(third == third_of(s0));
        assert(forall|j: int| 0 <= j < 12 ==>
            (#[trigger] has_interval@[j] == after_third(s0).contains(j)));
    }

    let seventhish: Option<Interval> = if has_interval[11] {
        has_interval[11] = false;
        Option::Some(Interval::MajorSeventh)
    } else if has_interval[10] {
        has_interval[10] = false;
        Option::Some(Interval::MinorSeventh)
    } else if has_interval[9] {
        has_interval[9] = false;
        Option::Some(Interval::Sixth)
    } else if has_interval[8] {
        has_interval[8] = false;
        Option::Some(Interval::SharpFifth)
    } else {
        Option::None
    };
    proof {
        assert(seventhish == seventh_of(s0));
        assert(forall|j: int| 0 <= j < 12 ==>
            (#[trigger] has_interval@[j] == after_seventh(s0).contains(j)));
    }

    let ninth: Option<Interval> = if has_interval[1] {
        has_interval[1] = false;
        Option::Some(Interval::MinorSecond)
    } else if has_interval[2] {
        has_interval[2] = false;
        Option::Some(Interval::MajorSecond)
    } else if has_interval[3] {
        has_interval[3] = false;
        Option::Some(Interval::MinorThird)
    } else {
        Option::None
    };
    proof {
        assert(ninth == ninth_of(s0));
        assert(forall|j: int| 0 <= j < 12 ==>
            (#[trigger] has_interval@[j] == after_ninth(s0).contains(j)));
    }

    let fifth: Option<Interval> = if has_interval[7] {
        has_interval[7] = false;
        Option::Some(Interval::PerfectFifth)
    } else if has_interval[6] {
        has_interval[6] = false;
        Option::Some(Interval::Tritone)
    } else if has_interval[8] {
        has_interval[8] = false;
        Option::Some(Interval::SharpFifth)
    } else {
        Option::None
    };
    proof {
        assert(fifth == fifth_of(s0));
        assert(forall|j: int| 0 <= j < 12 ==>
            (#[trigger] has_interval@[j] == after_fifth(s0).contains(j)));
    }

    let eleventh: Option<Interval> = if has_interval[5] {
        has_interval[5] = false;
        Option::Some(Interval::PerfectForth)
    } else if has_interval[6] {
        has_interval[6] = false;
        Option::Some(Interval::Tritone)
    } else {
        Option::None
    };
    proof {
        assert(eleventh == eleventh_of(s0));
        assert(forall|j: int| 0 <= j < 12 ==>
            (#[trigger] has_interval@[j] == after_eleventh(s0).contains(j)));
    }

    let thirteenth: Option<Interval> = if has_interval[9] {
        has_interval[9] = false;
        Option::Some(Interval::Sixth)
    } else if has_interval[8] {
        has_interval[8] = false;
        Option::Some(Interval::SharpFifth)
    } else {
        Option::None
    };
    proof {
        assert(thirteenth == thirteenth_of(s0));
    }

    (third, seventhish, ninth, fifth, eleventh, thirteenth)
}

/// Appends one token to a token list.
fn push_token(ts: &mut Vec<String>, tok: String)
    ensures
        views(final(ts)@) == views(old(ts)@) + seq![tok@],
{
    let ghost t = tok@;
    ts.push(tok);
    proof {
        assert(views(ts@) =~= views(old(ts)@) + seq![t]);
    }
}

/// Notes a tritone or sharp fifth in the fifth role as an alteration,
/// unless the quality already implies it.
fn apply_fifth(mods: &mut Vec<String>, fifth: Option<Interval>, third: Option<Interval>)
    ensures
        views(final(mods)@) == views(old(mods)@) + fifth_alterations(fifth, third),
{
    match (fifth, third) {
        (Option::Some(Interval::Tritone), Option::Some(Interval::MinorThird)) => {}
        (Option::Some(Interval::SharpFifth), Option::Some(Interval::MajorThird)) => {}
        (Option::Some(Interval::Tritone), _) => push_token(mods, String::from_str("b5")),
        (Option::Some(Interval::SharpFifth), _) => push_token(mods, String::from_str("#5")),
        _ => {}
    }
    proof {
        assert(views(mods@) =~= views(old(mods)@) + fifth_alterations(fifth, third));
    }
}

/// Applies the ninth role: upgrades the extension or contributes an
/// addition or alteration token.
fn apply_ninth(e: Ext, ninth: Option<Interval>, sus: bool, add: &mut Vec<String>, mods: &mut Vec<String>) -> (r: Ext)
    ensures
        r == ext_after_ninth(e, ninth),
        views(final(add)@) == views(old(add)@) + ninth_additions(ninth, e, sus),
        views(final(mods)@) == views(old(mods)@) + ninth_alterations(ninth, e, sus),
{
    let mut ext = e;
    match ninth {
        Option::Some(Interval::MajorSecond) => {
            if matches!(ext, Ext::Dom7) {
                ext = Ext::Dom9;
            } else if matches!(ext, Ext::Maj7) {
                ext = Ext::Maj9;
            } else if matches!(ext, Ext::Six | Ext::FlatSix) {
                push_token(add, String::from_str("/9"));
            } else if matches!(ext, Ext::Empty) {
                push_token(add, String::from_str("add9"));
            }
        }
        Option::Some(Interval::MinorSecond) => {
            if matches!(ext, Ext::Empty) && !sus {
                push_token(add, String::from_str("addb9"));
            } else {
                push_token(mods, String::from_str("b9"));
            }
        }
        Option::Some(Interval::MinorThird) => {
            if matches!(ext, Ext::Empty) {
                push_token(add, String::from_str("add#9"));
            } else {
                push_token(mods, String::from_str("#9"));
            }
        }
        _ => {}
    }
    proof {
        assert(views(add@) =~= views(old(add)@) + ninth_additions(ninth, e, sus));
        assert(views(mods@) =~= views(old(mods)@) + ninth_alterations(ninth, e, sus));
    }
    ext
}

/// Applies the eleventh role: upgrades the extension or contributes an
/// addition, and always notes a tritone as "#11".
fn apply_eleventh(e: Ext, eleventh: Option<Interval>, add: &mut Vec<String>, mods: &mut Vec<String>) -> (r: Ext)
    ensures
        r == ext_after_eleventh(e, eleventh),
        views(final(add)@) == views(old(add)@) + eleventh_additions(eleventh, e),
        views(final(mods)@) == views(old(mods)@) + eleventh_alterations(eleventh),
{
    let mut ext = e;
    match eleventh {
        Option::Some(Interval::PerfectForth) => {
            if matches!(ext, Ext::Dom9 | Ext::Dom7) {
                ext = Ext::Dom11;
            } else if matches!(ext, Ext::Maj9 | Ext::Maj7) {
                ext = Ext::Maj11;
            } else if matches!(ext, Ext::Six | Ext::FlatSix) {
                push_token(add, String::from_str("/11"));
            } else if matches!(ext, Ext::Empty) {
                push_token(add, String::from_str("add11"));
            }
        }
        Option::Some(Interval::Tritone) => {
            push_token(mods, String::from_str("#11"));
        }
        _ => {}
    }
    proof {
        assert(views(add@) =~= views(old(add)@) + eleventh_additions(eleventh, e));
        assert(views(mods@) =~= views(old(mods)@) + eleventh_alterations(eleventh));
    }
    ext
}

/// Applies the thirteenth role: upgrades a seventh-bearing extension to a
/// thirteenth, and notes a sharp fifth as "b13".
fn apply_thirteenth(e: Ext, has7: bool, thirteenth: Option<Interval>, mods: &mut Vec<String>) -> (r: Ext)
    ensures
        r == ext_after_thirteenth(e, has7, thirteenth),
        views(final(mods)@) == views(old(mods)@) + thirteenth_alterations(thirteenth),
{
    let mut ext = e;
    match thirteenth {
        Option::Some(Interval::Sixth) => {
            if has7
                || matches!(ext, Ext::Dom9 | Ext::Maj9 | Ext::Dom11 | Ext::Maj11 | Ext::Maj7)
            {
                ext = if matches!(ext, Ext::Maj7 | Ext::Maj9 | Ext::Maj11) {
                    Ext::Maj13
                } else {
                    Ext::Dom13
                };
            }
        }
        Option::Some(Interval::SharpFifth) => {
            push_token(mods, String::from_str("b13"));
        }
        _ => {}
    }
    proof {
        assert(views(mods@) =~= views(old(mods)@) + thirteenth_alterations(thirteenth));
    }
    ext
}

/// Appends the omission tokens: "no3" without a third, "no9" for a gapped
/// eleventh or thirteenth.
fn apply_omissions(mods: &mut Vec<String>, third: Option<Interval>, ninth: Option<Interval>, ef: Ext)
    ensures
        views(final(mods)@) == views(old(mods)@) + omission_tokens(third, ninth, ef),
{
    if third.is_none() {
        push_token(mods, String::from_str("no3"));
    }
    if ninth.is_none() && matches!(ef, Ext::Dom13 | Ext::Maj13 | Ext::Dom11 | Ext::Maj11) {
        push_token(mods, String::from_str("no9"));
    }
    proof {
        assert(views(mods@) =~= views(old(mods)@) + omission_tokens(third, ninth, ef));
    }
}

/// Composes the name suffix for the resolved roles: quality, extension and
/// its refinements, addition tokens, and parenthesized modifiers.
#[verifier::rlimit(100)]
fn assemble_name(third: Option<Interval>, seventhish: Option<Interval>, ninth: Option<Interval>, fifth: Option<Interval>, eleventh: Option<Interval>, thirteenth: Option<Interval>) -> (r: String)
    ensures
        r@ == name_from_roles(third, seventhish, ninth, fifth, eleventh, thirteenth),
{
    let quality = quality_string(third, fifth);
    let dim = matches!((third, fifth), (Option::Some(Interval::MinorThird), Option::Some(Interval::Tritone)));
    let sus = matches!(
        third,
        Option::Some(Interval::MinorSecond)
            | Option::Some(Interval::MajorSecond)
            | Option::Some(Interval::PerfectForth)
    );
    proof {
        assert(dim == is_dim(third, fifth));
        assert(sus == is_sus(third));
    }

    let e0: Ext = match seventhish {
        Option::Some(Interval::MajorSeventh) => Ext::Maj7,
        Option::Some(Interval::MinorSeventh) => Ext::Dom7,
        Option::Some(Interval::Sixth) => if dim { Ext::Dom7 } else { Ext::Six },
        Option::Some(Interval::SharpFifth) => Ext::FlatSix,
        _ => Ext::Empty,
    };
    proof {
        assert(e0 == base_ext(seventhish, is_dim(third, fifth)));
    }
    let has_7 = matches!(e0, Ext::Dom7 | Ext::Maj7);

    let mut modifiers: Vec<String> = Vec::new();
    let mut add: Vec<String> = Vec::new();

    apply_fifth(&mut modifiers, fifth, third);
    let e1 = apply_ninth(e0, ninth, sus, &mut add, &mut modifiers);
    let e2 = apply_eleventh(e1, eleventh, &mut add, &mut modifiers);
    let ext = apply_thirteenth(e2, has_7, thirteenth, &mut modifiers);
    apply_omissions(&mut modifiers, third, ninth, ext);
    proof {
        assert(ext == ext_from(seventhish, third, ninth, fifth, eleventh, thirteenth));
        assert(views(add@) =~= additions_from(third, seventhish, ninth, fifth, eleventh));
        assert(views(modifiers@) =~= modifiers_from(third, seventhish, ninth, fifth, eleventh, thirteenth));
    }

    // Assemble: extension before a suspended quality, quality first
    // otherwise; then additions; then modifiers in parentheses.
    let mut res = String::new();
    let ext_text = ext_string(ext);
    if sus {
        res.append(ext_text.as_str());
        res.append(quality.as_str());
    } else {
        res.append(quality.as_str());
        res.append(ext_text.as_str());
    }
    append_all(&mut res, &add);

    if modifiers.len() > 0 {
        res.append("(");
        let joined = join_with_commas(&modifiers);
        res.append(joined.as_str());
        res.append(")");
    }
    proof {
        assert(res@ =~= name_from_roles(third, seventhish, ninth, fifth, eleventh, thirteenth));
    }
    res
}

impl Chord {
    /// Classifies a relative interval form: `None` when the form has no
    /// conventional name, otherwise the name suffix to hang on the root's
    /// name.  An empty form is never named and a single offset names the
    /// bare root.  A two-element form is never named either, by deliberate
    /// choice: even a dyad holding the perfect fifth gets no "5"
    /// power-chord reading.
    pub fn get_name_from_relative_form(relative_form: Vec<Note>) -> (r: Option<String>)
        requires
            notes_wf(relative_form@),
        ensures
            ({
                let c = classify_spec(offsets(relative_form@));
                match r {
                    Option::Some(s) => c == Option::Some(s@),
                    Option::None => c is None,
                }
            }),
    {
        let size = relative_form.len();
        if size == 0 {
            return Option::None;
        }
        if size == 1 {
            return Option::Some(String::new());
        }
        if size == 2 {
            return Option::None;
        }

        let (third, seventhish, ninth, fifth, eleventh, thirteenth) = resolve_roles(&relative_form);
        let res = assemble_name(third, seventhish, ninth, fifth, eleventh, thirteenth);
        Option::Some(res)
    }
}

} // verus!
