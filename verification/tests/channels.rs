//! Tests for recursive channel assignment and deep-copy independence.

use polyphony::element::MusicElement;
use polyphony::element::Note;
use polyphony::element::Parallel;
use polyphony::element::Pause;
use polyphony::element::Sequential;
use polyphony::pitch::Channel;
use polyphony::pitch::NoteClass;
use polyphony::time::Fraction;

fn note(name: NoteClass, octave: u32) -> MusicElement {
    MusicElement::Note(Note::new(name, octave))
}

/// A small composite with notes at several nesting depths and a pause.
fn sample() -> MusicElement {
    let mut inner = Parallel::new();
    inner.push(note(NoteClass::E, 4));
    inner.push(note(NoteClass::G, 4));
    let mut s = Sequential::new();
    s.push(note(NoteClass::C, 4));
    s.push(MusicElement::Pause(Pause::new(Fraction::new(1, 4))));
    s.push(MusicElement::Parallel(inner));
    MusicElement::Sequential(s)
}

/// Collects the instruments of every note in the tree, in order.
fn instruments(e: &MusicElement) -> Vec<Channel> {
    let mut out = Vec::new();
    collect(e, &mut out);
    out
}

fn collect(e: &MusicElement, out: &mut Vec<Channel>) {
    match e {
        MusicElement::Note(n) => out.push(n.instrument),
        MusicElement::Pause(_) => {}
        MusicElement::Sequential(s) => {
            for child in s.elements.iter() {
                collect(child, out);
            }
        }
        MusicElement::Parallel(p) => {
            for child in p.elements.iter() {
                collect(child, out);
            }
        }
    }
}

#[test]
fn set_channel_reaches_every_note() {
    let mut e = sample();
    assert_eq!(instruments(&e), vec![Channel::Piano; 3]);
    e.set_channel(Channel::Violin);
    assert_eq!(instruments(&e), vec![Channel::Violin; 3]);
}

#[test]
fn set_channel_is_idempotent() {
    let mut once = sample();
    once.set_channel(Channel::Organ);
    let mut twice = sample();
    twice.set_channel(Channel::Organ);
    twice.set_channel(Channel::Organ);
    assert_eq!(instruments(&once), instruments(&twice));
    assert_eq!(once.duration(), twice.duration());
}

#[test]
fn set_channel_leaves_pauses_and_durations_alone() {
    let mut e = sample();
    let before = e.duration();
    e.set_channel(Channel::Telephone);
    assert_eq!(e.duration(), before);
    match &e {
        MusicElement::Sequential(s) => match &s.elements[1] {
            MusicElement::Pause(p) => assert_eq!(p.length, Fraction::new(1, 4)),
            _ => panic!("expected a pause"),
        },
        _ => panic!("expected a sequential grouping"),
    }
}

#[test]
fn note_set_channel_replaces_instrument() {
    let mut n = Note::new(NoteClass::A, 3);
    n.set_channel(Channel::Flute);
    assert_eq!(n.instrument, Channel::Flute);
    assert_eq!(n.name, NoteClass::A);
    assert_eq!(n.octave, 3);
}

#[test]
fn builder_methods_chain() {
    let n = Note::new(NoteClass::D, 5).channel(Channel::Guitar).duration(Fraction::new(1, 8));
    assert_eq!(n.instrument, Channel::Guitar);
    assert_eq!(n.length, Fraction::new(1, 8));
    assert_eq!(n.name, NoteClass::D);
}

#[test]
fn retargeted_returns_the_reassigned_tree() {
    let a = sample();
    let b = a.clone().retargeted(Channel::Trumpet);
    assert_eq!(instruments(&a), vec![Channel::Piano; 3]);
    assert_eq!(instruments(&b), vec![Channel::Trumpet; 3]);
}

#[test]
fn deep_copy_is_independent() {
    // Cloning then retargeting the copy leaves the original untouched.
    let a = sample();
    let mut b = a.clone();
    b.set_channel(Channel::Helicopter);
    assert_eq!(instruments(&a), vec![Channel::Piano; 3]);
    assert_eq!(instruments(&b), vec![Channel::Helicopter; 3]);
    assert_eq!(a.duration(), b.duration());
}
