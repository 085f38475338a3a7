//! End-to-end tests for the shipped melody and its three-voice canon.

use polyphony::element::MusicElement;
use polyphony::pitch::Channel;
use polyphony::song::build_canon;
use polyphony::song::build_melody;
use polyphony::time::Dur;
use polyphony::time::WHOLE_NOTE_TICKS;

fn bars(d: Dur) -> f64 {
    match d {
        Dur::NegInf => f64::NEG_INFINITY,
        Dur::Ticks(t) => t as f64 / WHOLE_NOTE_TICKS as f64,
    }
}

#[test]
fn melody_has_nineteen_elements() {
    let melody = build_melody();
    assert_eq!(melody.elements.len(), 19);
}

#[test]
fn melody_duration() {
    // The literal note and triplet lengths sum to four whole notes.
    let melody = build_melody();
    let d = melody.duration();
    assert_eq!(d, Dur::Ticks(15360));
    assert_eq!(bars(d), 4.0);
}

#[test]
fn canon_duration_is_driven_by_latest_voice() {
    // The violin voice starts two whole notes (7680 ticks) after the
    // original, so the canon lasts 7680 ticks longer than the melody.
    let melody = build_melody();
    let melody_ticks = match melody.duration() {
        Dur::Ticks(t) => t,
        Dur::NegInf => panic!("melody must have a finite duration"),
    };
    let canon = build_canon(melody);
    assert_eq!(canon.duration(), Dur::Ticks(melody_ticks + 7680));
    assert_eq!(canon.duration(), Dur::Ticks(23040));
    assert_eq!(bars(canon.duration()), 6.0);
}

#[test]
fn canon_voices_and_channels() {
    let canon = build_canon(build_melody());
    assert_eq!(canon.elements.len(), 3);
    // Voice one plays on piano, the delayed copies on organ and violin.
    let expected = [Channel::Piano, Channel::Organ, Channel::Violin];
    for (voice, want) in canon.elements.iter().zip(expected.iter()) {
        let mut found = None;
        if let MusicElement::Sequential(s) = voice {
            let mut stack: Vec<&MusicElement> = s.elements.iter().collect();
            while let Some(e) = stack.pop() {
                match e {
                    MusicElement::Note(n) => {
                        found = Some(n.instrument);
                        break;
                    }
                    MusicElement::Sequential(inner) => stack.extend(inner.elements.iter()),
                    MusicElement::Parallel(inner) => stack.extend(inner.elements.iter()),
                    MusicElement::Pause(_) => {}
                }
            }
        } else {
            panic!("every voice is a sequential grouping");
        }
        assert_eq!(found, Some(*want));
    }
}

#[test]
fn delayed_voices_last_longer_than_the_melody() {
    let canon = build_canon(build_melody());
    let durations: Vec<Dur> = canon.elements.iter().map(|v| v.duration()).collect();
    assert_eq!(durations, vec![Dur::Ticks(15360), Dur::Ticks(19200), Dur::Ticks(23040)]);
}
