//! Tests for duration computation: leaves, sums, maxima, and the
//! empty-grouping edge cases.

use polyphony::element::MusicElement;
use polyphony::element::Note;
use polyphony::element::Parallel;
use polyphony::element::Pause;
use polyphony::element::Sequential;
use polyphony::pitch::NoteClass;
use polyphony::time::Dur;
use polyphony::time::Fraction;

fn note(name: NoteClass, octave: u32, num: u32, den: u32) -> MusicElement {
    MusicElement::Note(Note::new(name, octave).duration(Fraction::new(num, den)))
}

#[test]
fn note_duration_is_length_times_tempo() {
    // A note of fractional length d lasts d * 3840 ticks.
    let quarter = MusicElement::Note(Note::new(NoteClass::A, 4));
    assert_eq!(quarter.duration(), Dur::Ticks(960));
    let half = note(NoteClass::A, 4, 1, 2);
    assert_eq!(half.duration(), Dur::Ticks(1920));
    let triplet_eighth = note(NoteClass::A, 4, 1, 12);
    assert_eq!(triplet_eighth.duration(), Dur::Ticks(320));
    let double_whole = note(NoteClass::A, 4, 2, 1);
    assert_eq!(double_whole.duration(), Dur::Ticks(7680));
}

#[test]
fn pause_duration_is_length_times_tempo() {
    let p = MusicElement::Pause(Pause::new(Fraction::new(1, 1)));
    assert_eq!(p.duration(), Dur::Ticks(3840));
    let p = MusicElement::Pause(Pause::new(Fraction::new(3, 16)));
    assert_eq!(p.duration(), Dur::Ticks(720));
    let p = MusicElement::Pause(Pause::new(Fraction::new(0, 1)));
    assert_eq!(p.duration(), Dur::Ticks(0));
}

#[test]
fn sequential_duration_is_sum() {
    // Two quarter notes: 2 * 0.25 * 3840 = 1920 ticks, half a bar.
    let mut s = Sequential::new();
    s.push(note(NoteClass::C, 4, 1, 4));
    s.push(note(NoteClass::D, 4, 1, 4));
    assert_eq!(s.duration(), Dur::Ticks(1920));

    // A longer mixed list.
    let mut s = Sequential::new();
    s.push(note(NoteClass::C, 4, 1, 4));
    s.push(MusicElement::Pause(Pause::new(Fraction::new(1, 2))));
    s.push(note(NoteClass::E, 4, 1, 16));
    assert_eq!(s.duration(), Dur::Ticks(960 + 1920 + 240));
}

#[test]
fn empty_sequential_lasts_zero() {
    let s = Sequential::new();
    assert_eq!(s.duration(), Dur::Ticks(0));
}

#[test]
fn parallel_duration_is_maximum() {
    // A quarter note (960 ticks) against a half note (1920 ticks).
    let mut p = Parallel::new();
    p.push(note(NoteClass::C, 4, 1, 4));
    p.push(note(NoteClass::G, 4, 1, 2));
    assert_eq!(p.duration(), Dur::Ticks(1920));

    // Order does not matter.
    let mut p = Parallel::new();
    p.push(note(NoteClass::G, 4, 1, 2));
    p.push(note(NoteClass::C, 4, 1, 4));
    assert_eq!(p.duration(), Dur::Ticks(1920));
}

#[test]
fn empty_parallel_is_negative_infinity() {
    // The documented edge case: folding a maximum over nothing yields the
    // negative-infinity sentinel.
    let p = Parallel::new();
    assert_eq!(p.duration(), Dur::NegInf);
}

#[test]
fn negative_infinity_absorbs_into_sums() {
    // A sequence containing an empty parallel grouping inherits the
    // sentinel, as adding negative infinity would in floating point.
    let mut s = Sequential::new();
    s.push(note(NoteClass::C, 4, 1, 4));
    s.push(MusicElement::Parallel(Parallel::new()));
    assert_eq!(s.duration(), Dur::NegInf);
}

#[test]
fn nested_groupings_fold_recursively() {
    let mut inner = Sequential::new();
    inner.push(note(NoteClass::C, 4, 1, 4));
    inner.push(note(NoteClass::D, 4, 1, 4));
    let mut outer = Parallel::new();
    outer.push(MusicElement::Sequential(inner));
    outer.push(note(NoteClass::E, 4, 1, 1));
    // max(960 + 960, 3840) = 3840.
    assert_eq!(outer.duration(), Dur::Ticks(3840));
}

#[test]
fn default_groupings_are_empty() {
    let s = Sequential::default();
    assert_eq!(s.duration(), Dur::Ticks(0));
    let p = Parallel::default();
    assert_eq!(p.duration(), Dur::NegInf);
}

#[test]
fn fraction_ticks() {
    assert_eq!(Fraction::new(1, 4).ticks(), 960);
    assert_eq!(Fraction::new(1, 12).ticks(), 320);
    assert_eq!(Fraction::new(3, 16).ticks(), 720);
    assert_eq!(Fraction::quarter().ticks(), 960);
}

#[test]
fn to_midi_pitch_and_ticks() {
    let n = Note::new(NoteClass::C, 4);
    let m = n.to_midi();
    assert_eq!(m.pitch, 48);
    assert_eq!(m.duration, 960);

    let n = Note::new(NoteClass::Gs, 5).duration(Fraction::new(1, 2));
    let m = n.to_midi();
    assert_eq!(m.pitch, 68);
    assert_eq!(m.duration, 1920);
}
