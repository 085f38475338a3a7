//! Durations. A note length is an exact fraction of a whole note; an
//! element's duration is a tick count, where a whole note spans
//! `WHOLE_NOTE_TICKS` ticks. A parallel grouping with no children has the
//! sentinel duration `Dur::NegInf`, reproducing the fold-from-negative-
//! infinity the maximum is defined by.

use vstd::prelude::*;

verus! {

/// The number of ticks in a whole note.
pub const WHOLE_NOTE_TICKS: u64 = 3840;

/// A note length as an exact fraction `num / den` of a whole note.
///
/// Well-formed fractions have a positive denominator that divides
/// `num * WHOLE_NOTE_TICKS`, so that the tick count of the length is an
/// exact integer (all common note values — halves, quarters, sixteenths,
/// triplet eighths — satisfy this).
#[derive(Clone, Copy, PartialEq, Eq, Structural, Debug)]
pub struct Fraction {
    pub num: u32,
    pub den: u32,
}

impl Fraction {
    /// Well-formedness: the denominator is positive and the tick count is
    /// an exact integer.
    pub open spec fn wf(self) -> bool {
        &&& self.den > 0
        &&& (self.num as int * WHOLE_NOTE_TICKS as int) % (self.den as int) == 0
    }

    /// The tick count of this length: `num * WHOLE_NOTE_TICKS / den`.
    pub open spec fn spec_ticks(self) -> int {
        (self.num as int * WHOLE_NOTE_TICKS as int) / (self.den as int)
    }

    /// Builds the length `num / den` of a whole note.
    pub fn new(num: u32, den: u32) -> (r: Fraction)
        requires
            den > 0,
            (num as int * WHOLE_NOTE_TICKS as int) % (den as int) == 0,
        ensures
            r == (Fraction { num, den }),
            r.wf(),
    {
        Fraction { num, den }
    }

    /// A quarter note, the default note length.
    pub fn quarter() -> (r: Fraction)
        ensures
            r == (Fraction { num: 1, den: 4 }),
            r.wf(),
            r.spec_ticks() == 960,
    {
        Fraction { num: 1, den: 4 }
    }

    /// The tick count of this length.
    pub fn ticks(&self) -> (r: u64)
        requires
            self.wf(),
        ensures
            r as int == self.spec_ticks(),
            r <= self.num as int * WHOLE_NOTE_TICKS as int,
    {
        let n: u64 = (self.num as u64) * WHOLE_NOTE_TICKS;
        proof {
            assert(n as int / self.den as int <= n as int) by (nonlinear_arith)
                requires
                    self.den >= 1,
                    n >= 0,
            ;
        }
        n / (self.den as u64)
    }
}

/// An aggregate duration: a tick count, or the negative-infinity sentinel
/// that an empty parallel grouping folds to.
#[derive(Clone, Copy, PartialEq, Eq, Structural, Debug)]
pub enum Dur {
    NegInf,
    Ticks(u64),
}

/// The mathematical counterpart of [`Dur`], over unbounded integers.
pub enum SpecDur {
    NegInf,
    Fin(int),
}

impl View for Dur {
    type V = SpecDur;

    open spec fn view(&self) -> SpecDur {
        match *self {
            Dur::NegInf => SpecDur::NegInf,
            Dur::Ticks(t) => SpecDur::Fin(t as int),
        }
    }
}

/// Addition of aggregate durations: negative infinity absorbs, finite
/// durations add.
pub open spec fn dur_plus(a: SpecDur, b: SpecDur) -> SpecDur {
    match (a, b) {
        (SpecDur::Fin(x), SpecDur::Fin(y)) => SpecDur::Fin(x + y),
        _ => SpecDur::NegInf,
    }
}

/// Maximum of aggregate durations: negative infinity is the identity.
pub open spec fn dur_max(a: SpecDur, b: SpecDur) -> SpecDur {
    match (a, b) {
        (SpecDur::NegInf, _) => b,
        (_, SpecDur::NegInf) => a,
        (SpecDur::Fin(x), SpecDur::Fin(y)) => if x >= y { a } else { b },
    }
}

/// Ordering of aggregate durations, with negative infinity below
/// everything.
pub open spec fn dur_le(a: SpecDur, b: SpecDur) -> bool {
    match (a, b) {
        (SpecDur::NegInf, _) => true,
        (SpecDur::Fin(_), SpecDur::NegInf) => false,
        (SpecDur::Fin(x), SpecDur::Fin(y)) => x <= y,
    }
}

impl Dur {
    /// Adds two aggregate durations; negative infinity absorbs.
    pub fn plus(self, other: Dur) -> (r: Dur)
        requires
            self@ matches SpecDur::Fin(x) ==> (other@ matches SpecDur::Fin(y) ==> x + y
                <= u64::MAX),
        ensures
            r@ == dur_plus(self@, other@),
    {
        match (self, other) {
            (Dur::Ticks(x), Dur::Ticks(y)) => Dur::Ticks(x + y),
            _ => Dur::NegInf,
        }
    }

    /// The larger of two aggregate durations; negative infinity is the
    /// identity.
    pub fn max_with(self, other: Dur) -> (r: Dur)
        ensures
            r@ == dur_max(self@, other@),
    {
        match (self, other) {
            (Dur::NegInf, _) => other,
            (_, Dur::NegInf) => self,
            (Dur::Ticks(x), Dur::Ticks(y)) => if x >= y {
                self
            } else {
                other
            },
        }
    }
}

} // verus!
