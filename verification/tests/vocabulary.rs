//! Tests for the pitch-class and channel vocabulary.

use polyphony::pitch::Channel;
use polyphony::pitch::NoteClass;

#[test]
fn note_class_names() {
    assert_eq!(NoteClass::C.name(), "C");
    assert_eq!(NoteClass::Cs.name(), "C#");
    assert_eq!(NoteClass::D.name(), "D");
    assert_eq!(NoteClass::Ds.name(), "D#");
    assert_eq!(NoteClass::E.name(), "E");
    assert_eq!(NoteClass::F.name(), "F");
    assert_eq!(NoteClass::Fs.name(), "F#");
    assert_eq!(NoteClass::G.name(), "G");
    assert_eq!(NoteClass::Gs.name(), "G#");
    assert_eq!(NoteClass::A.name(), "A");
    assert_eq!(NoteClass::As.name(), "A#");
    assert_eq!(NoteClass::B.name(), "B");
}

#[test]
fn note_class_semitones() {
    assert_eq!(NoteClass::C.semitone(), 0);
    assert_eq!(NoteClass::Cs.semitone(), 1);
    assert_eq!(NoteClass::E.semitone(), 4);
    assert_eq!(NoteClass::G.semitone(), 7);
    assert_eq!(NoteClass::B.semitone(), 11);
}

#[test]
fn channel_numbers_are_one_based() {
    assert_eq!(Channel::Piano.to_u32(), 1);
    assert_eq!(Channel::Organ.to_u32(), 2);
    assert_eq!(Channel::Guitar.to_u32(), 3);
    assert_eq!(Channel::Violin.to_u32(), 4);
    assert_eq!(Channel::Flute.to_u32(), 5);
    assert_eq!(Channel::Trumpet.to_u32(), 6);
    assert_eq!(Channel::Helicopter.to_u32(), 7);
    assert_eq!(Channel::Telephone.to_u32(), 8);
}
