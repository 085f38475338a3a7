//! The pitch and instrument vocabulary: twelve pitch classes and the
//! eight instrument channels the scores use.

use vstd::prelude::*;

verus! {

/// The twelve pitch classes of the chromatic scale, C through B.
#[derive(Clone, Copy, PartialEq, Eq, Structural, Debug)]
pub enum NoteClass {
    C,
    Cs,
    D,
    Ds,
    E,
    F,
    Fs,
    G,
    Gs,
    A,
    As,
    B,
}

impl NoteClass {
    /// Semitone offset of this pitch class above C, in the range 0 to 11.
    pub open spec fn spec_semitone(self) -> u32 {
        match self {
            NoteClass::C => 0,
            NoteClass::Cs => 1,
            NoteClass::D => 2,
            NoteClass::Ds => 3,
            NoteClass::E => 4,
            NoteClass::F => 5,
            NoteClass::Fs => 6,
            NoteClass::G => 7,
            NoteClass::Gs => 8,
            NoteClass::A => 9,
            NoteClass::As => 10,
            NoteClass::B => 11,
        }
    }

    /// Returns the semitone offset of this pitch class above C.
    pub fn semitone(&self) -> (r: u32)
        ensures
            r == self.spec_semitone(),
            r < 12,
    {
        match self {
            NoteClass::C => 0,
            NoteClass::Cs => 1,
            NoteClass::D => 2,
            NoteClass::Ds => 3,
            NoteClass::E => 4,
            NoteClass::F => 5,
            NoteClass::Fs => 6,
            NoteClass::G => 7,
            NoteClass::Gs => 8,
            NoteClass::A => 9,
            NoteClass::As => 10,
            NoteClass::B => 11,
        }
    }

    /// The display name of this pitch class, as a sequence of characters.
    pub open spec fn spec_name(self) -> Seq<char> {
        match self {
            NoteClass::C => "C"@,
            NoteClass::Cs => "C#"@,
            NoteClass::D => "D"@,
            NoteClass::Ds => "D#"@,
            NoteClass::E => "E"@,
            NoteClass::F => "F"@,
            NoteClass::Fs => "F#"@,
            NoteClass::G => "G"@,
            NoteClass::Gs => "G#"@,
            NoteClass::A => "A"@,
            NoteClass::As => "A#"@,
            NoteClass::B => "B"@,
        }
    }

    /// Returns the display name of this pitch class, sharps written with `#`.
    pub fn name(&self) -> (r: &'static str)
        ensures
            r@ == self.spec_name(),
    {
        match self {
            NoteClass::C => "C",
            NoteClass::Cs => "C#",
            NoteClass::D => "D",
            NoteClass::Ds => "D#",
            NoteClass::E => "E",
            NoteClass::F => "F",
            NoteClass::Fs => "F#",
            NoteClass::G => "G",
            NoteClass::Gs => "G#",
            NoteClass::A => "A",
            NoteClass::As => "A#",
            NoteClass::B => "B",
        }
    }
}

/// The instrument channels available to a score. The list holds only the
/// instruments the shipped arrangement uses, not a full MIDI bank.
#[derive(Clone, Copy, PartialEq, Eq, Structural, Debug)]
pub enum Channel {
    Piano,
    Organ,
    Guitar,
    Violin,
    Flute,
    Trumpet,
    Helicopter,
    Telephone,
}

impl Channel {
    /// The 1-based numeric identifier of this channel.
    pub open spec fn spec_u32(self) -> u32 {
        match self {
            Channel::Piano => 1,
            Channel::Organ => 2,
            Channel::Guitar => 3,
            Channel::Violin => 4,
            Channel::Flute => 5,
            Channel::Trumpet => 6,
            Channel::Helicopter => 7,
            Channel::Telephone => 8,
        }
    }

    /// Converts the channel to its 1-based numeric identifier.
    pub fn to_u32(self) -> (r: u32)
        ensures
            r == self.spec_u32(),
            1 <= r <= 8,
    {
        match self {
            Channel::Piano => 1,
            Channel::Organ => 2,
            Channel::Guitar => 3,
            Channel::Violin => 4,
            Channel::Flute => 5,
            Channel::Trumpet => 6,
            Channel::Helicopter => 7,
            Channel::Telephone => 8,
        }
    }
}

} // verus!
