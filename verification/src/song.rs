//! The shipped arrangement: the "Row Row Row Your Boat" melody and its
//! three-voice canon, built as verified score trees with exact aggregate
//! durations.

use vstd::prelude::*;

use crate::element::MusicElement;
use crate::element::Note;
use crate::element::Parallel;
use crate::element::Pause;
use crate::element::Sequential;
use crate::model::leaf_total_all;
use crate::model::lemma_parts_push;
use crate::model::lemma_with_channel_all_preserves;
use crate::model::parts_peak;
use crate::model::parts_total;
use crate::model::parts_wf;
use crate::model::with_channel_all;
use crate::model::Score;
use crate::pitch::Channel;
use crate::pitch::NoteClass;
use crate::time::dur_plus;
use crate::time::Fraction;
use crate::time::SpecDur;
use crate::time::WHOLE_NOTE_TICKS;

verus! {

/// The shape of one melody note: the given pitch, on piano, lasting
/// `num / den` of a whole note.
pub open spec fn note_score(name: NoteClass, octave: u32, num: u32, den: u32) -> Score {
    Score::Note { name, octave, instrument: Channel::Piano, length: Fraction { num, den } }
}

/// The shape of a triplet run: three eighth-note-triplet notes of one
/// pitch, grouped sequentially.
pub open spec fn triplet_score(name: NoteClass, octave: u32) -> Score {
    Score::Sequential {
        parts: seq![
            note_score(name, octave, 1, 12),
            note_score(name, octave, 1, 12),
            note_score(name, octave, 1, 12),
        ],
    }
}

/// Appends one note to a melody being built, tracking its exact tick
/// contribution.
fn push_note(seq: &mut Sequential, name: NoteClass, octave: u32, num: u32, den: u32)
    requires
        den > 0,
        (num as int * WHOLE_NOTE_TICKS as int) % (den as int) == 0,
    ensures
        final(seq)@ == old(seq)@.push(note_score(name, octave, num, den)),
        parts_wf(final(seq)@) <==> parts_wf(old(seq)@),
        leaf_total_all(final(seq)@) == leaf_total_all(old(seq)@) + (num as int
            * WHOLE_NOTE_TICKS as int) / (den as int),
        parts_total(final(seq)@) == dur_plus(
            parts_total(old(seq)@),
            SpecDur::Fin((num as int * WHOLE_NOTE_TICKS as int) / (den as int)),
        ),
{
    let length = Fraction::new(num, den);
    seq.push(MusicElement::Note(Note::new(name, octave).duration(length)));
    proof {
        lemma_parts_push(old(seq)@, note_score(name, octave, num, den));
    }
}

/// Appends a triplet run to a melody being built; a run spans a quarter
/// note, 960 ticks.
fn push_triplet(seq: &mut Sequential, name: NoteClass, octave: u32)
    ensures
        final(seq)@ == old(seq)@.push(triplet_score(name, octave)),
        parts_wf(final(seq)@) <==> parts_wf(old(seq)@),
        leaf_total_all(final(seq)@) == leaf_total_all(old(seq)@) + 960,
        parts_total(final(seq)@) == dur_plus(parts_total(old(seq)@), SpecDur::Fin(960)),
{
    let mut t = Sequential::new();
    push_note(&mut t, name, octave, 1, 12);
    push_note(&mut t, name, octave, 1, 12);
    push_note(&mut t, name, octave, 1, 12);
    proof {
        assert(t@ =~= seq![
            note_score(name, octave, 1, 12),
            note_score(name, octave, 1, 12),
            note_score(name, octave, 1, 12),
        ]);
    }
    seq.push(MusicElement::Sequential(t));
    proof {
        lemma_parts_push(old(seq)@, triplet_score(name, octave));
    }
}

/// The shape of the whole nineteen-element melody.
pub open spec fn melody_score() -> Seq<Score> {
    seq![
        note_score(NoteClass::C, 4, 1, 4),
        note_score(NoteClass::C, 4, 1, 4),
        note_score(NoteClass::C, 4, 3, 16),
        note_score(NoteClass::D, 4, 1, 16),
        note_score(NoteClass::E, 4, 1, 4),
        note_score(NoteClass::E, 4, 3, 16),
        note_score(NoteClass::D, 4, 1, 16),
        note_score(NoteClass::E, 4, 3, 16),
        note_score(NoteClass::F, 4, 1, 16),
        note_score(NoteClass::G, 4, 1, 2),
        triplet_score(NoteClass::C, 5),
        triplet_score(NoteClass::G, 4),
        triplet_score(NoteClass::E, 4),
        triplet_score(NoteClass::C, 4),
        note_score(NoteClass::G, 4, 3, 16),
        note_score(NoteClass::F, 4, 1, 16),
        note_score(NoteClass::E, 4, 3, 16),
        note_score(NoteClass::D, 4, 1, 16),
        note_score(NoteClass::C, 4, 1, 2),
    ]
}

/// Builds the melody: nineteen elements — quarter, dotted-sixteenth and
/// half notes around four triplet runs — lasting 15360 ticks in all.
pub fn build_melody() -> (r: Sequential)
    ensures
        r@ == melody_score(),
        parts_wf(r@),
        leaf_total_all(r@) == 15360,
        parts_total(r@) == SpecDur::Fin(15360),
{
    let mut m = Sequential::new();
    push_note(&mut m, NoteClass::C, 4, 1, 4);
    push_note(&mut m, NoteClass::C, 4, 1, 4);
    push_note(&mut m, NoteClass::C, 4, 3, 16);
    push_note(&mut m, NoteClass::D, 4, 1, 16);
    push_note(&mut m, NoteClass::E, 4, 1, 4);
    push_note(&mut m, NoteClass::E, 4, 3, 16);
    push_note(&mut m, NoteClass::D, 4, 1, 16);
    push_note(&mut m, NoteClass::E, 4, 3, 16);
    push_note(&mut m, NoteClass::F, 4, 1, 16);
    push_note(&mut m, NoteClass::G, 4, 1, 2);
    push_triplet(&mut m, NoteClass::C, 5);
    push_triplet(&mut m, NoteClass::G, 4);
    push_triplet(&mut m, NoteClass::E, 4);
    push_triplet(&mut m, NoteClass::C, 4);
    push_note(&mut m, NoteClass::G, 4, 3, 16);
    push_note(&mut m, NoteClass::F, 4, 1, 16);
    push_note(&mut m, NoteClass::E, 4, 3, 16);
    push_note(&mut m, NoteClass::D, 4, 1, 16);
    push_note(&mut m, NoteClass::C, 4, 1, 2);
    proof {
        assert(m@ =~= melody_score());
    }
    m
}

/// The shape of the canon built from a melody `m`: the melody itself, the
/// melody on organ after a whole-note pause, and the melody on violin
/// after a double-whole-note pause, in parallel.
pub open spec fn canon_score(m: Seq<Score>) -> Seq<Score> {
    seq![
        Score::Sequential { parts: m },
        Score::Sequential {
            parts: seq![
                Score::Pause { length: Fraction { num: 1, den: 1 } },
                Score::Sequential { parts: with_channel_all(m, Channel::Organ) },
            ],
        },
        Score::Sequential {
            parts: seq![
                Score::Pause { length: Fraction { num: 2, den: 1 } },
                Score::Sequential { parts: with_channel_all(m, Channel::Violin) },
            ],
        },
    ]
}

/// Builds the three-voice canon over the given melody. Whatever the
/// melody, the canon lasts two whole notes (7680 ticks) longer than the
/// melody alone, because the latest-starting voice drives the total and
/// the channel-shifted copies last exactly as long as the original.
pub fn build_canon(melody: Sequential) -> (r: Parallel)
    ensures
        r@ == canon_score(melody@),
        parts_peak(r@) == dur_plus(SpecDur::Fin(7680), parts_total(melody@)),
        parts_wf(melody@) ==> parts_wf(r@),
        leaf_total_all(r@) == 3 * leaf_total_all(melody@) + 11520,
{
    let ghost m = melody@;
    let mut organ = melody.clone();
    let mut violin = melody.clone();
    organ.set_channel(Channel::Organ);
    violin.set_channel(Channel::Violin);

    let ghost pause_one = Score::Pause { length: Fraction { num: 1, den: 1 } };
    let ghost pause_two = Score::Pause { length: Fraction { num: 2, den: 1 } };
    let ghost organ_sc = Score::Sequential { parts: with_channel_all(m, Channel::Organ) };
    let ghost violin_sc = Score::Sequential { parts: with_channel_all(m, Channel::Violin) };

    let mut voice2 = Sequential::new();
    voice2.push(MusicElement::Pause(Pause::new(Fraction::new(1, 1))));
    voice2.push(MusicElement::Sequential(organ));
    proof {
        assert(voice2@ =~= seq![pause_one, organ_sc]);
    }
    let mut voice3 = Sequential::new();
    voice3.push(MusicElement::Pause(Pause::new(Fraction::new(2, 1))));
    voice3.push(MusicElement::Sequential(violin));
    proof {
        assert(voice3@ =~= seq![pause_two, violin_sc]);
    }

    let ghost v1 = Score::Sequential { parts: m };
    let ghost v2 = Score::Sequential { parts: seq![pause_one, organ_sc] };
    let ghost v3 = Score::Sequential { parts: seq![pause_two, violin_sc] };
    let mut canon = Parallel::new();
    canon.push(MusicElement::Sequential(melody));
    canon.push(MusicElement::Sequential(voice2));
    canon.push(MusicElement::Sequential(voice3));
    proof {
        assert(canon@ =~= seq![v1, v2, v3]);
        assert(canon_score(m) =~= seq![v1, v2, v3]);
        lemma_with_channel_all_preserves(m, Channel::Organ);
        lemma_with_channel_all_preserves(m, Channel::Violin);
        lemma_parts_push(Seq::<Score>::empty(), pause_one);
        lemma_parts_push(seq![pause_one], organ_sc);
        assert(Seq::<Score>::empty().push(pause_one) =~= seq![pause_one]);
        assert(seq![pause_one].push(organ_sc) =~= seq![pause_one, organ_sc]);
        lemma_parts_push(Seq::<Score>::empty(), pause_two);
        lemma_parts_push(seq![pause_two], violin_sc);
        assert(Seq::<Score>::empty().push(pause_two) =~= seq![pause_two]);
        assert(seq![pause_two].push(violin_sc) =~= seq![pause_two, violin_sc]);
        lemma_parts_push(Seq::<Score>::empty(), v1);
        lemma_parts_push(seq![v1], v2);
        lemma_parts_push(seq![v1, v2], v3);
        assert(Seq::<Score>::empty().push(v1) =~= seq![v1]);
        assert(seq![v1].push(v2) =~= seq![v1, v2]);
        assert(seq![v1, v2].push(v3) =~= seq![v1, v2, v3]);
    }
    canon
}

} // verus!
