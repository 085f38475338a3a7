//! The mathematical model of a score: a tree of notes, pauses, sequential
//! and parallel groupings, together with the spec functions that give the
//! tree its meaning — aggregate duration, well-formedness, and recursive
//! channel assignment — and the laws those functions obey.

use vstd::prelude::*;

use crate::pitch::Channel;
use crate::pitch::NoteClass;
use crate::time::dur_le;
use crate::time::dur_max;
use crate::time::dur_plus;
use crate::time::Fraction;
use crate::time::SpecDur;

verus! {

/// The abstract shape of a musical element: the view of the executable
/// tree types.
#[verifier::ext_equal]
pub enum Score {
    Note { name: NoteClass, octave: u32, instrument: Channel, length: Fraction },
    Pause { length: Fraction },
    Sequential { parts: Seq<Score> },
    Parallel { parts: Seq<Score> },
}

/// The aggregate duration of an element: a leaf lasts its own tick count,
/// a sequential grouping the sum of its children, a parallel grouping the
/// maximum of its children (negative infinity when it has none).
pub open spec fn score_dur(s: Score) -> SpecDur
    decreases s,
{
    match s {
        Score::Note { length, .. } => SpecDur::Fin(length.spec_ticks()),
        Score::Pause { length } => SpecDur::Fin(length.spec_ticks()),
        Score::Sequential { parts } => parts_total(parts),
        Score::Parallel { parts } => parts_peak(parts),
    }
}

/// The sum of the durations of a list of elements, zero for an empty list.
pub open spec fn parts_total(ps: Seq<Score>) -> SpecDur
    decreases ps,
{
    if ps.len() == 0 {
        SpecDur::Fin(0)
    } else {
        dur_plus(score_dur(ps[0]), parts_total(ps.subrange(1, ps.len() as int)))
    }
}

/// The maximum of the durations of a list of elements, negative infinity
/// for an empty list.
pub open spec fn parts_peak(ps: Seq<Score>) -> SpecDur
    decreases ps,
{
    if ps.len() == 0 {
        SpecDur::NegInf
    } else {
        dur_max(score_dur(ps[0]), parts_peak(ps.subrange(1, ps.len() as int)))
    }
}

/// Well-formedness: every note length in the tree is a well-formed
/// fraction.
pub open spec fn score_wf(s: Score) -> bool
    decreases s,
{
    match s {
        Score::Note { length, .. } => length.wf(),
        Score::Pause { length } => length.wf(),
        Score::Sequential { parts } => parts_wf(parts),
        Score::Parallel { parts } => parts_wf(parts),
    }
}

/// Well-formedness of every element of a list.
pub open spec fn parts_wf(ps: Seq<Score>) -> bool
    decreases ps,
{
    if ps.len() == 0 {
        true
    } else {
        score_wf(ps[0]) && parts_wf(ps.subrange(1, ps.len() as int))
    }
}

/// The sum of the tick counts of every leaf in the tree, ignoring the
/// negative-infinity sentinel. It bounds every intermediate value a
/// duration computation meets.
pub open spec fn leaf_total(s: Score) -> int
    decreases s,
{
    match s {
        Score::Note { length, .. } => length.spec_ticks(),
        Score::Pause { length } => length.spec_ticks(),
        Score::Sequential { parts } => leaf_total_all(parts),
        Score::Parallel { parts } => leaf_total_all(parts),
    }
}

/// The sum of the leaf tick counts over a list of elements.
pub open spec fn leaf_total_all(ps: Seq<Score>) -> int
    decreases ps,
{
    if ps.len() == 0 {
        0
    } else {
        leaf_total(ps[0]) + leaf_total_all(ps.subrange(1, ps.len() as int))
    }
}

/// The tree with every note's instrument replaced by `c`; pauses and the
/// grouping structure are untouched.
pub open spec fn with_channel(s: Score, c: Channel) -> Score
    decreases s,
{
    match s {
        Score::Note { name, octave, instrument, length } => Score::Note {
            name,
            octave,
            instrument: c,
            length,
        },
        Score::Pause { length } => Score::Pause { length },
        Score::Sequential { parts } => Score::Sequential { parts: with_channel_all(parts, c) },
        Score::Parallel { parts } => Score::Parallel { parts: with_channel_all(parts, c) },
    }
}

/// Channel replacement applied to every element of a list.
pub open spec fn with_channel_all(ps: Seq<Score>, c: Channel) -> Seq<Score>
    decreases ps,
{
    if ps.len() == 0 {
        Seq::empty()
    } else {
        seq![with_channel(ps[0], c)] + with_channel_all(ps.subrange(1, ps.len() as int), c)
    }
}

/// Holds when every note in the tree plays on channel `c`.
pub open spec fn all_on_channel(s: Score, c: Channel) -> bool
    decreases s,
{
    match s {
        Score::Note { instrument, .. } => instrument == c,
        Score::Pause { .. } => true,
        Score::Sequential { parts } => parts_on_channel(parts, c),
        Score::Parallel { parts } => parts_on_channel(parts, c),
    }
}

/// Holds when every note in every element of the list plays on channel `c`.
pub open spec fn parts_on_channel(ps: Seq<Score>, c: Channel) -> bool
    decreases ps,
{
    if ps.len() == 0 {
        true
    } else {
        all_on_channel(ps[0], c) && parts_on_channel(ps.subrange(1, ps.len() as int), c)
    }
}

/// The value of a finite duration.
pub open spec fn fin_val(d: SpecDur) -> int
    recommends
        d is Fin,
{
    match d {
        SpecDur::Fin(v) => v,
        SpecDur::NegInf => 0,
    }
}

/// The tick count of a well-formed fraction is non-negative and at most
/// the numerator times the whole-note tick count.
pub proof fn lemma_fraction_ticks_bounds(f: Fraction)
    requires
        f.wf(),
    ensures
        0 <= f.spec_ticks(),
        f.spec_ticks() <= f.num as int * crate::time::WHOLE_NOTE_TICKS as int,
{
    let n = f.num as int * crate::time::WHOLE_NOTE_TICKS as int;
    vstd::arithmetic::div_mod::lemma_div_pos_is_pos(n, f.den as int);
    vstd::arithmetic::div_mod::lemma_div_nonincreasing(n, f.den as int);
}

/// Any finite duration a well-formed tree can yield is non-negative and
/// bounded by the tree's total leaf tick count.
pub proof fn lemma_score_bounds(s: Score)
    requires
        score_wf(s),
    ensures
        0 <= leaf_total(s),
        score_dur(s) matches SpecDur::Fin(v) ==> 0 <= v && v <= leaf_total(s),
    decreases s,
{
    match s {
        Score::Note { length, .. } => lemma_fraction_ticks_bounds(length),
        Score::Pause { length } => lemma_fraction_ticks_bounds(length),
        Score::Sequential { parts } => lemma_parts_bounds(parts),
        Score::Parallel { parts } => lemma_parts_bounds(parts),
    }
}

/// As [`lemma_score_bounds`], over a list of elements.
pub proof fn lemma_parts_bounds(ps: Seq<Score>)
    requires
        parts_wf(ps),
    ensures
        0 <= leaf_total_all(ps),
        parts_total(ps) matches SpecDur::Fin(v) ==> 0 <= v && v <= leaf_total_all(ps),
        parts_peak(ps) matches SpecDur::Fin(v) ==> 0 <= v && v <= leaf_total_all(ps),
    decreases ps,
{
    if ps.len() > 0 {
        lemma_score_bounds(ps[0]);
        lemma_parts_bounds(ps.subrange(1, ps.len() as int));
    }
}

/// Duration, peak, leaf totals and well-formedness all distribute over
/// concatenation of lists.
pub proof fn lemma_parts_concat(a: Seq<Score>, b: Seq<Score>)
    ensures
        parts_total(a + b) == dur_plus(parts_total(a), parts_total(b)),
        parts_peak(a + b) == dur_max(parts_peak(a), parts_peak(b)),
        leaf_total_all(a + b) == leaf_total_all(a) + leaf_total_all(b),
        parts_wf(a + b) <==> (parts_wf(a) && parts_wf(b)),
    decreases a,
{
    if a.len() == 0 {
        assert(a + b =~= b);
    } else {
        let a1 = a.subrange(1, a.len() as int);
        assert((a + b).subrange(1, (a + b).len() as int) =~= a1 + b);
        assert((a + b)[0] == a[0]);
        lemma_parts_concat(a1, b);
    }
}

/// How totals, peaks and well-formedness decompose around position `i`
/// of a list: the workhorse for loops that fold a list element by
/// element.
pub proof fn lemma_parts_split_at(ps: Seq<Score>, i: int)
    requires
        0 <= i < ps.len(),
    ensures
        leaf_total_all(ps) == leaf_total_all(ps.subrange(0, i)) + leaf_total(ps[i])
            + leaf_total_all(ps.subrange(i + 1, ps.len() as int)),
        parts_total(ps.subrange(0, i + 1)) == dur_plus(
            parts_total(ps.subrange(0, i)),
            score_dur(ps[i]),
        ),
        parts_peak(ps.subrange(0, i + 1)) == dur_max(
            parts_peak(ps.subrange(0, i)),
            score_dur(ps[i]),
        ),
        parts_wf(ps) ==> parts_wf(ps.subrange(0, i)) && score_wf(ps[i]) && parts_wf(
            ps.subrange(i + 1, ps.len() as int),
        ),
{
    let pre = ps.subrange(0, i);
    let one = seq![ps[i]];
    let rest = ps.subrange(i + 1, ps.len() as int);
    let tail = one.subrange(1, 1);
    assert(tail =~= Seq::<Score>::empty());
    assert(parts_total(tail) == SpecDur::Fin(0));
    assert(parts_peak(tail) == SpecDur::NegInf);
    assert(parts_wf(tail));
    assert(leaf_total_all(tail) == 0);
    assert(parts_total(one) == dur_plus(score_dur(ps[i]), SpecDur::Fin(0)));
    assert(parts_peak(one) == dur_max(score_dur(ps[i]), SpecDur::NegInf));
    assert(ps =~= pre + (one + rest));
    lemma_parts_concat(one, rest);
    lemma_parts_concat(pre, one + rest);
    assert(ps.subrange(0, i + 1) =~= pre + one);
    lemma_parts_concat(pre, one);
}

/// How totals, peaks and well-formedness change when one element is
/// appended to a list.
pub proof fn lemma_parts_push(qs: Seq<Score>, x: Score)
    ensures
        parts_total(qs.push(x)) == dur_plus(parts_total(qs), score_dur(x)),
        parts_peak(qs.push(x)) == dur_max(parts_peak(qs), score_dur(x)),
        leaf_total_all(qs.push(x)) == leaf_total_all(qs) + leaf_total(x),
        parts_wf(qs.push(x)) <==> (parts_wf(qs) && score_wf(x)),
{
    let one = seq![x];
    let tail = one.subrange(1, 1);
    assert(tail =~= Seq::<Score>::empty());
    assert(parts_total(tail) == SpecDur::Fin(0));
    assert(parts_peak(tail) == SpecDur::NegInf);
    assert(parts_wf(tail));
    assert(leaf_total_all(tail) == 0);
    assert(qs.push(x) =~= qs + one);
    lemma_parts_concat(qs, one);
}

/// Channel assignment keeps every duration, every leaf total and
/// well-formedness: it touches instruments only.
pub proof fn lemma_with_channel_preserves(s: Score, c: Channel)
    ensures
        score_dur(with_channel(s, c)) == score_dur(s),
        leaf_total(with_channel(s, c)) == leaf_total(s),
        score_wf(with_channel(s, c)) <==> score_wf(s),
    decreases s,
{
    match s {
        Score::Sequential { parts } => lemma_with_channel_all_preserves(parts, c),
        Score::Parallel { parts } => lemma_with_channel_all_preserves(parts, c),
        _ => {},
    }
}

/// As [`lemma_with_channel_preserves`], over a list of elements.
pub proof fn lemma_with_channel_all_preserves(ps: Seq<Score>, c: Channel)
    ensures
        with_channel_all(ps, c).len() == ps.len(),
        forall|i: int|
            0 <= i < ps.len() ==> #[trigger] with_channel_all(ps, c)[i] == with_channel(ps[i], c),
        parts_total(with_channel_all(ps, c)) == parts_total(ps),
        parts_peak(with_channel_all(ps, c)) == parts_peak(ps),
        leaf_total_all(with_channel_all(ps, c)) == leaf_total_all(ps),
        parts_wf(with_channel_all(ps, c)) <==> parts_wf(ps),
    decreases ps,
{
    if ps.len() > 0 {
        let rest = ps.subrange(1, ps.len() as int);
        lemma_with_channel_preserves(ps[0], c);
        lemma_with_channel_all_preserves(rest, c);
        let w = with_channel_all(ps, c);
        assert(w[0] == with_channel(ps[0], c));
        assert(w.subrange(1, w.len() as int) =~= with_channel_all(rest, c));
        assert forall|i: int| 0 <= i < ps.len() implies #[trigger] w[i] == with_channel(
            ps[i],
            c,
        ) by {
            if i >= 1 {
                assert(w[i] == with_channel_all(rest, c)[i - 1]);
                assert(ps[i] == rest[i - 1]);
            }
        }
    }
}

/// Channel assignment is exhaustive: afterwards every note in the tree
/// plays on the assigned channel.
pub proof fn lemma_with_channel_covers(s: Score, c: Channel)
    ensures
        all_on_channel(with_channel(s, c), c),
    decreases s,
{
    match s {
        Score::Sequential { parts } => lemma_with_channel_all_covers(parts, c),
        Score::Parallel { parts } => lemma_with_channel_all_covers(parts, c),
        _ => {},
    }
}

/// As [`lemma_with_channel_covers`], over a list of elements.
pub proof fn lemma_with_channel_all_covers(ps: Seq<Score>, c: Channel)
    ensures
        parts_on_channel(with_channel_all(ps, c), c),
    decreases ps,
{
    if ps.len() > 0 {
        let rest = ps.subrange(1, ps.len() as int);
        lemma_with_channel_covers(ps[0], c);
        lemma_with_channel_all_covers(rest, c);
        let w = with_channel_all(ps, c);
        assert(w[0] == with_channel(ps[0], c));
        assert(w.subrange(1, w.len() as int) =~= with_channel_all(rest, c));
    }
}

/// Channel assignment is stable: a tree whose notes already all play on
/// `c` is returned unchanged.
pub proof fn lemma_with_channel_stable(s: Score, c: Channel)
    requires
        all_on_channel(s, c),
    ensures
        with_channel(s, c) == s,
    decreases s,
{
    match s {
        Score::Sequential { parts } => lemma_with_channel_all_stable(parts, c),
        Score::Parallel { parts } => lemma_with_channel_all_stable(parts, c),
        _ => {},
    }
}

/// As [`lemma_with_channel_stable`], over a list of elements.
pub proof fn lemma_with_channel_all_stable(ps: Seq<Score>, c: Channel)
    requires
        parts_on_channel(ps, c),
    ensures
        with_channel_all(ps, c) == ps,
    decreases ps,
{
    if ps.len() > 0 {
        let rest = ps.subrange(1, ps.len() as int);
        lemma_with_channel_stable(ps[0], c);
        lemma_with_channel_all_stable(rest, c);
        assert(with_channel_all(ps, c) =~= ps);
    }
}

/// Channel assignment is idempotent: assigning the same channel twice is
/// the same as assigning it once.
pub proof fn lemma_with_channel_idempotent(s: Score, c: Channel)
    ensures
        with_channel(with_channel(s, c), c) == with_channel(s, c),
{
    lemma_with_channel_covers(s, c);
    lemma_with_channel_stable(with_channel(s, c), c);
}

/// The law of notes: a note lasts exactly its fractional length times
/// the whole-note tick count — `num / den` of a whole note is
/// `num * WHOLE_NOTE_TICKS / den` ticks, whatever its pitch, octave and
/// instrument.
pub proof fn lemma_note_duration(
    name: NoteClass,
    octave: u32,
    instrument: Channel,
    length: Fraction,
)
    ensures
        score_dur(Score::Note { name, octave, instrument, length }) == SpecDur::Fin(
            length.num as int * crate::time::WHOLE_NOTE_TICKS as int / length.den as int,
        ),
{
}

/// The law of pauses: a pause lasts exactly its fractional length times
/// the whole-note tick count, by the same formula as a note.
pub proof fn lemma_pause_duration(length: Fraction)
    ensures
        score_dur(Score::Pause { length }) == SpecDur::Fin(
            length.num as int * crate::time::WHOLE_NOTE_TICKS as int / length.den as int,
        ),
{
}

/// Holds when every element of the list has a finite duration.
pub open spec fn parts_all_finite(ps: Seq<Score>) -> bool {
    forall|i: int| 0 <= i < ps.len() ==> #[trigger] score_dur(ps[i]) is Fin
}

/// The sum of the (finite) duration values of a list of elements.
pub open spec fn parts_value_sum(ps: Seq<Score>) -> int
    decreases ps,
{
    if ps.len() == 0 {
        0
    } else {
        fin_val(score_dur(ps[0])) + parts_value_sum(ps.subrange(1, ps.len() as int))
    }
}

/// The law of sequential composition: a list of elements with finite
/// durations lasts exactly the sum of those durations. With each leaf
/// lasting its fractional length times the whole-note tick count, a
/// sequence of lengths d1..dn therefore lasts (d1 + .. + dn) whole notes.
pub proof fn lemma_sequential_sum(ps: Seq<Score>)
    requires
        parts_all_finite(ps),
    ensures
        parts_total(ps) == SpecDur::Fin(parts_value_sum(ps)),
    decreases ps,
{
    if ps.len() > 0 {
        let rest = ps.subrange(1, ps.len() as int);
        assert(parts_all_finite(rest)) by {
            assert forall|i: int| 0 <= i < rest.len() implies #[trigger] score_dur(
                rest[i],
            ) is Fin by {
                assert(rest[i] == ps[i + 1]);
            }
        }
        assert(score_dur(ps[0]) is Fin);
        lemma_sequential_sum(rest);
    }
}

/// The law of parallel composition: an empty grouping folds to negative
/// infinity; otherwise the grouping lasts exactly as long as a longest
/// child, and no child lasts longer.
pub proof fn lemma_parallel_peak(ps: Seq<Score>)
    ensures
        ps.len() == 0 ==> parts_peak(ps) == SpecDur::NegInf,
        forall|i: int| 0 <= i < ps.len() ==> dur_le(#[trigger] score_dur(ps[i]), parts_peak(ps)),
        ps.len() > 0 ==> exists|i: int|
            0 <= i < ps.len() && parts_peak(ps) == score_dur(#[trigger] ps[i]),
    decreases ps,
{
    if ps.len() > 0 {
        let rest = ps.subrange(1, ps.len() as int);
        lemma_parallel_peak(rest);
        let peak = parts_peak(ps);
        assert(peak == dur_max(score_dur(ps[0]), parts_peak(rest)));
        assert forall|i: int| 0 <= i < ps.len() implies dur_le(
            #[trigger] score_dur(ps[i]),
            peak,
        ) by {
            if i >= 1 {
                assert(ps[i] == rest[i - 1]);
                assert(dur_le(score_dur(rest[i - 1]), parts_peak(rest)));
            }
        }
        if rest.len() == 0 {
            assert(peak == score_dur(ps[0]));
        } else {
            let j = choose|j: int|
                0 <= j < rest.len() && parts_peak(rest) == score_dur(#[trigger] rest[j]);
            if peak == score_dur(ps[0]) {
                assert(0 <= 0 < ps.len() && peak == score_dur(ps[0]));
            } else {
                assert(peak == parts_peak(rest));
                assert(ps[j + 1] == rest[j]);
                assert(0 <= j + 1 < ps.len() && peak == score_dur(ps[j + 1]));
            }
        }
    }
}

} // verus!
