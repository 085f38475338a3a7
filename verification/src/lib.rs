//! A verified model of a small composite music score: notes, pauses,
//! sequential and parallel groupings, with aggregate durations measured
//! in MIDI ticks and recursive channel assignment.

pub mod element;
pub mod model;
pub mod pitch;
pub mod song;
pub mod time;
