//! The executable score tree: notes, pauses, sequential and parallel
//! groupings, each viewed as a [`Score`] and verified against the spec
//! functions of [`crate::model`].

use vstd::prelude::*;

use crate::model::leaf_total;
use crate::model::leaf_total_all;
use crate::model::lemma_parts_bounds;
use crate::model::lemma_score_bounds;
use crate::model::parts_peak;
use crate::model::parts_total;
use crate::model::parts_wf;
use crate::model::score_dur;
use crate::model::score_wf;
use crate::model::with_channel;
use crate::model::with_channel_all;
use crate::model::Score;
use crate::pitch::Channel;
use crate::pitch::NoteClass;
use crate::time::Dur;
use crate::time::Fraction;

verus! {

broadcast use {
    vstd::std_specs::vec::axiom_vec_decreases_to_view,
    vstd::std_specs::vec::axiom_vec_index_decreases,
};

/// A single note: pitch class, octave, instrument, and length as a
/// fraction of a whole note.
#[derive(Clone, Copy, PartialEq, Eq, Structural, Debug)]
pub struct Note {
    pub name: NoteClass,
    pub octave: u32,
    pub instrument: Channel,
    pub length: Fraction,
}

/// A rest: a length and nothing else.
#[derive(Clone, Copy, PartialEq, Eq, Structural, Debug)]
pub struct Pause {
    pub length: Fraction,
}

/// A MIDI-style rendering of a note: pitch number and tick duration.
#[derive(Clone, Copy, PartialEq, Eq, Structural, Debug)]
pub struct MidiNote {
    pub pitch: u32,
    pub duration: u64,
}

/// Elements played one after another; the grouping lasts the sum of its
/// children's durations.
#[derive(Debug)]
pub struct Sequential {
    pub elements: Vec<MusicElement>,
}

/// Elements played simultaneously; the grouping lasts as long as its
/// longest child.
#[derive(Debug)]
pub struct Parallel {
    pub elements: Vec<MusicElement>,
}

/// A musical element: one of the four closed variants.
#[derive(Debug)]
pub enum MusicElement {
    Note(Note),
    Pause(Pause),
    Sequential(Sequential),
    Parallel(Parallel),
}

/// The abstract shape of an element.
pub open spec fn view_of(e: MusicElement) -> Score
    decreases e,
{
    match e {
        MusicElement::Note(n) => Score::Note {
            name: n.name,
            octave: n.octave,
            instrument: n.instrument,
            length: n.length,
        },
        MusicElement::Pause(p) => Score::Pause { length: p.length },
        MusicElement::Sequential(s) => Score::Sequential { parts: views_of(s.elements@) },
        MusicElement::Parallel(p) => Score::Parallel { parts: views_of(p.elements@) },
    }
}

/// The abstract shapes of a list of elements.
pub open spec fn views_of(es: Seq<MusicElement>) -> Seq<Score>
    decreases es,
{
    if es.len() == 0 {
        Seq::empty()
    } else {
        seq![view_of(es[0])] + views_of(es.subrange(1, es.len() as int))
    }
}

impl View for MusicElement {
    type V = Score;

    open spec fn view(&self) -> Score {
        view_of(*self)
    }
}

impl View for Sequential {
    type V = Seq<Score>;

    open spec fn view(&self) -> Seq<Score> {
        views_of(self.elements@)
    }
}

impl View for Parallel {
    type V = Seq<Score>;

    open spec fn view(&self) -> Seq<Score> {
        views_of(self.elements@)
    }
}

/// A list of elements is viewed elementwise.
pub proof fn lemma_views_of(es: Seq<MusicElement>)
    ensures
        views_of(es).len() == es.len(),
        forall|i: int| 0 <= i < es.len() ==> #[trigger] views_of(es)[i] == view_of(es[i]),
    decreases es,
{
    if es.len() > 0 {
        let rest = es.subrange(1, es.len() as int);
        lemma_views_of(rest);
        assert forall|i: int| 0 <= i < es.len() implies #[trigger] views_of(es)[i] == view_of(
            es[i],
        ) by {
            if i >= 1 {
                assert(es[i] == rest[i - 1]);
                assert(views_of(es)[i] == views_of(rest)[i - 1]);
            }
        }
    }
}

/// Views distribute over concatenation of element lists.
pub proof fn lemma_views_of_concat(a: Seq<MusicElement>, b: Seq<MusicElement>)
    ensures
        views_of(a + b) == views_of(a) + views_of(b),
    decreases a,
{
    if a.len() == 0 {
        assert(a + b =~= b);
        assert(views_of(a) + views_of(b) =~= views_of(b));
    } else {
        let a1 = a.subrange(1, a.len() as int);
        assert((a + b).subrange(1, (a + b).len() as int) =~= a1 + b);
        assert((a + b)[0] == a[0]);
        lemma_views_of_concat(a1, b);
        assert(seq![view_of(a[0])] + (views_of(a1) + views_of(b)) =~= (seq![view_of(a[0])]
            + views_of(a1)) + views_of(b));
    }
}

/// A one-element list is viewed as a one-element list.
pub proof fn lemma_views_of_singleton(e: MusicElement)
    ensures
        views_of(seq![e]) == seq![view_of(e)],
{
    let one = seq![e];
    let tail = one.subrange(1, 1);
    assert(tail =~= Seq::<MusicElement>::empty());
    assert(views_of(tail) =~= Seq::<Score>::empty());
    assert(views_of(one) =~= seq![view_of(e)]);
}

impl Note {
    /// Creates a new note on channel `Piano` with a quarter-note length.
    pub fn new(name: NoteClass, octave: u32) -> (r: Note)
        ensures
            r == (Note { name, octave, instrument: Channel::Piano, length: Fraction {
                num: 1,
                den: 4,
            } }),
            r.length.wf(),
    {
        Note { name, octave, instrument: Channel::Piano, length: Fraction::quarter() }
    }

    /// Builder method that sets the instrument of a note.
    pub fn channel(self, instrument: Channel) -> (r: Note)
        ensures
            r == (Note { instrument, ..self }),
    {
        Note { instrument, ..self }
    }

    /// Builder method that sets the length of a note.
    pub fn duration(self, length: Fraction) -> (r: Note)
        ensures
            r == (Note { length, ..self }),
    {
        Note { length, ..self }
    }

    /// The MIDI pitch number: twelve semitones per octave plus the pitch
    /// class's offset.
    pub open spec fn spec_pitch(self) -> int {
        12 * self.octave + self.name.spec_semitone()
    }

    /// Renders the note as a MIDI pitch number and tick duration.
    pub fn to_midi(&self) -> (r: MidiNote)
        requires
            self.length.wf(),
            12 * self.octave as int + 11 <= u32::MAX,
        ensures
            r.pitch == self.spec_pitch(),
            r.duration == self.length.spec_ticks(),
    {
        let offset = self.name.semitone();
        MidiNote { pitch: 12 * self.octave + offset, duration: self.length.ticks() }
    }

    /// Replaces the instrument of the note.
    pub fn set_channel(&mut self, channel: Channel)
        ensures
            *final(self) == (Note { instrument: channel, ..*old(self) }),
    {
        self.instrument = channel;
    }
}

impl Pause {
    /// Creates a pause of the given length.
    pub fn new(length: Fraction) -> (r: Pause)
        ensures
            r == (Pause { length }),
    {
        Pause { length }
    }

    /// A pause carries no instrument: setting the channel does nothing.
    pub fn set_channel(&mut self, _channel: Channel)
        ensures
            *final(self) == *old(self),
    {
    }
}

impl MusicElement {
    /// The aggregate duration of the element in ticks: a leaf lasts its
    /// own tick count, a sequential grouping the sum of its children, a
    /// parallel grouping the maximum of its children — `Dur::NegInf` when
    /// it has none.
    pub fn duration(&self) -> (r: Dur)
        requires
            score_wf(self@),
            leaf_total(self@) <= u64::MAX,
        ensures
            r@ == score_dur(self@),
        decreases *self, 1int,
    {
        match self {
            MusicElement::Note(n) => Dur::Ticks(n.length.ticks()),
            MusicElement::Pause(p) => Dur::Ticks(p.length.ticks()),
            MusicElement::Sequential(s) => s.duration(),
            MusicElement::Parallel(p) => p.duration(),
        }
    }
}

impl Sequential {
    /// The duration of the grouping: the sum of its children's durations,
    /// zero when it has none.
    pub fn duration(&self) -> (r: Dur)
        requires
            parts_wf(self@),
            leaf_total_all(self@) <= u64::MAX,
        ensures
            r@ == parts_total(self@),
        decreases self.elements, 0int,
    {
        let ghost vs = self@;
        proof {
            lemma_views_of(self.elements@);
        }
        let n = self.elements.len();
        let mut acc = Dur::Ticks(0);
        let mut i: usize = 0;
        while i < n
            invariant
                n == self.elements.len(),
                i <= n,
                vs == views_of(self.elements@),
                parts_wf(vs),
                leaf_total_all(vs) <= u64::MAX,
                vs.len() == n,
                forall|j: int| 0 <= j < n ==> vs[j] == view_of(#[trigger] self.elements@[j]),
                acc@ == parts_total(vs.subrange(0, i as int)),
            decreases n - i,
        {
            proof {
                crate::model::lemma_parts_split_at(vs, i as int);
                lemma_parts_bounds(vs.subrange(0, i as int));
                lemma_parts_bounds(vs.subrange(i as int + 1, vs.len() as int));
                lemma_score_bounds(vs[i as int]);
            }
            let d = self.elements[i].duration();
            acc = acc.plus(d);
            i += 1;
        }
        proof {
            assert(vs.subrange(0, n as int) =~= vs);
        }
        acc
    }
}

impl Parallel {
    /// The duration of the grouping: the maximum of its children's
    /// durations, `Dur::NegInf` when it has none.
    pub fn duration(&self) -> (r: Dur)
        requires
            parts_wf(self@),
            leaf_total_all(self@) <= u64::MAX,
        ensures
            r@ == parts_peak(self@),
        decreases self.elements, 0int,
    {
        let ghost vs = self@;
        proof {
            lemma_views_of(self.elements@);
        }
        let n = self.elements.len();
        let mut acc = Dur::NegInf;
        let mut i: usize = 0;
        while i < n
            invariant
                n == self.elements.len(),
                i <= n,
                vs == views_of(self.elements@),
                parts_wf(vs),
                leaf_total_all(vs) <= u64::MAX,
                vs.len() == n,
                forall|j: int| 0 <= j < n ==> vs[j] == view_of(#[trigger] self.elements@[j]),
                acc@ == parts_peak(vs.subrange(0, i as int)),
            decreases n - i,
        {
            proof {
                crate::model::lemma_parts_split_at(vs, i as int);
                lemma_parts_bounds(vs.subrange(0, i as int));
                lemma_parts_bounds(vs.subrange(i as int + 1, vs.len() as int));
                lemma_score_bounds(vs[i as int]);
            }
            let d = self.elements[i].duration();
            acc = acc.max_with(d);
            i += 1;
        }
        proof {
            assert(vs.subrange(0, n as int) =~= vs);
        }
        acc
    }
}

impl MusicElement {
    /// Returns the element with every note's instrument set to `channel`.
    pub fn retargeted(self, channel: Channel) -> (r: MusicElement)
        ensures
            r@ == with_channel(self@, channel),
        decreases self, 2int,
    {
        match self {
            MusicElement::Note(n) => MusicElement::Note(Note { instrument: channel, ..n }),
            MusicElement::Pause(p) => MusicElement::Pause(p),
            MusicElement::Sequential(s) => MusicElement::Sequential(s.retargeted(channel)),
            MusicElement::Parallel(p) => MusicElement::Parallel(p.retargeted(channel)),
        }
    }

    /// Sets the channel of every note in the element, in place.
    pub fn set_channel(&mut self, channel: Channel)
        ensures
            final(self)@ == with_channel(old(self)@, channel),
    {
        let mut tmp = MusicElement::Pause(Pause { length: Fraction { num: 0, den: 1 } });
        core::mem::swap(self, &mut tmp);
        tmp = tmp.retargeted(channel);
        core::mem::swap(self, &mut tmp);
    }
}

impl Sequential {
    /// Returns the grouping with every note's instrument set to
    /// `channel`.
    pub fn retargeted(self, channel: Channel) -> (r: Sequential)
        ensures
            r@ == with_channel_all(self@, channel),
        decreases self.elements, 1int,
    {
        Sequential { elements: retargeted_all(self.elements, channel) }
    }

    /// Sets the channel of every note in the grouping, in place.
    pub fn set_channel(&mut self, channel: Channel)
        ensures
            final(self)@ == with_channel_all(old(self)@, channel),
    {
        let mut tmp = Sequential { elements: Vec::new() };
        core::mem::swap(self, &mut tmp);
        tmp = tmp.retargeted(channel);
        core::mem::swap(self, &mut tmp);
    }
}

impl Parallel {
    /// Returns the grouping with every note's instrument set to
    /// `channel`.
    pub fn retargeted(self, channel: Channel) -> (r: Parallel)
        ensures
            r@ == with_channel_all(self@, channel),
        decreases self.elements, 1int,
    {
        Parallel { elements: retargeted_all(self.elements, channel) }
    }

    /// Sets the channel of every note in the grouping, in place.
    pub fn set_channel(&mut self, channel: Channel)
        ensures
            final(self)@ == with_channel_all(old(self)@, channel),
    {
        let mut tmp = Parallel { elements: Vec::new() };
        core::mem::swap(self, &mut tmp);
        tmp = tmp.retargeted(channel);
        core::mem::swap(self, &mut tmp);
    }
}

/// Channel assignment applied to every element of a list, in order.
fn retargeted_all(elements: Vec<MusicElement>, channel: Channel) -> (r: Vec<MusicElement>)
    ensures
        views_of(r@) == with_channel_all(views_of(elements@), channel),
    decreases elements, 0int,
{
    let ghost orig = elements@;
    let mut out = elements;
    let n = out.len();
    let mut i: usize = 0;
    while i < n
        invariant
            n == out.len(),
            i <= n,
            orig == elements@,
            orig.len() == n,
            forall|j: int| i <= j < n ==> #[trigger] out@[j] == orig[j],
            forall|j: int|
                0 <= j < i ==> view_of(#[trigger] out@[j]) == with_channel(
                    view_of(orig[j]),
                    channel,
                ),
        decreases n - i,
    {
        let mut tmp = MusicElement::Pause(Pause { length: Fraction { num: 0, den: 1 } });
        let slot = &mut out[i];
        core::mem::swap(slot, &mut tmp);
        proof {
            assert(tmp == orig[i as int]);
            assert(decreases_to!(elements => elements@));
            assert(decreases_to!(elements@ => elements@[i as int]));
            assert(decreases_to!(elements => elements@[i as int]));
        }
        tmp = tmp.retargeted(channel);
        let slot = &mut out[i];
        core::mem::swap(slot, &mut tmp);
        i += 1;
    }
    proof {
        lemma_views_of(out@);
        lemma_views_of(orig);
        let ghost ws = with_channel_all(views_of(orig), channel);
        crate::model::lemma_with_channel_all_preserves(views_of(orig), channel);
        assert forall|j: int| 0 <= j < n implies views_of(out@)[j] == ws[j] by {
            assert(view_of(out@[j]) == with_channel(view_of(orig[j]), channel));
            assert(ws[j] == with_channel(views_of(orig)[j], channel));
            assert(views_of(orig)[j] == view_of(orig[j]));
            assert(views_of(out@)[j] == view_of(out@[j]));
        }
        assert(views_of(out@) =~= ws);
    }
    out
}

impl Clone for MusicElement {
    /// Deep copy: the copy has the same abstract shape as the original
    /// and shares no ownership with it.
    fn clone(&self) -> (r: MusicElement)
        ensures
            r@ == self@,
        decreases *self, 2int,
    {
        match self {
            MusicElement::Note(n) => MusicElement::Note(*n),
            MusicElement::Pause(p) => MusicElement::Pause(*p),
            MusicElement::Sequential(s) => MusicElement::Sequential(s.clone()),
            MusicElement::Parallel(p) => MusicElement::Parallel(p.clone()),
        }
    }
}

impl Clone for Sequential {
    /// Deep copy: the copy has the same abstract shape as the original
    /// and shares no ownership with it.
    fn clone(&self) -> (r: Sequential)
        ensures
            r@ == self@,
        decreases self.elements, 1int,
    {
        Sequential { elements: clone_all(&self.elements) }
    }
}

impl Clone for Parallel {
    /// Deep copy: the copy has the same abstract shape as the original
    /// and shares no ownership with it.
    fn clone(&self) -> (r: Parallel)
        ensures
            r@ == self@,
        decreases self.elements, 1int,
    {
        Parallel { elements: clone_all(&self.elements) }
    }
}

/// Element-wise deep copy of a list.
fn clone_all(elements: &Vec<MusicElement>) -> (r: Vec<MusicElement>)
    ensures
        views_of(r@) == views_of(elements@),
    decreases elements, 0int,
{
    let mut out: Vec<MusicElement> = Vec::new();
    let n = elements.len();
    let mut i: usize = 0;
    while i < n
        invariant
            n == elements@.len(),
            i <= n,
            out@.len() == i,
            forall|j: int| 0 <= j < i ==> view_of(#[trigger] out@[j]) == view_of(elements@[j]),
        decreases n - i,
    {
        proof {
            assert(decreases_to!(elements => elements@));
            assert(decreases_to!(elements@ => elements@[i as int]));
            assert(decreases_to!(elements => elements@[i as int]));
        }
        let e = &elements[i];
        out.push(e.clone());
        i += 1;
    }
    proof {
        lemma_views_of(out@);
        lemma_views_of(elements@);
        assert forall|j: int| 0 <= j < n implies views_of(out@)[j] == views_of(elements@)[j] by {
            assert(views_of(out@)[j] == view_of(out@[j]));
            assert(views_of(elements@)[j] == view_of(elements@[j]));
        }
        assert(views_of(out@) =~= views_of(elements@));
    }
    out
}

impl Sequential {
    /// Creates an empty sequential grouping.
    pub fn new() -> (r: Sequential)
        ensures
            r@ == Seq::<Score>::empty(),
    {
        Sequential { elements: Vec::new() }
    }

    /// Appends an element at the end of the grouping.
    pub fn push(&mut self, element: MusicElement)
        ensures
            final(self)@ == old(self)@.push(element@),
    {
        let ghost before = self.elements@;
        self.elements.push(element);
        proof {
            assert(self.elements@ =~= before + seq![element]);
            lemma_views_of_concat(before, seq![element]);
            lemma_views_of_singleton(element);
            assert(views_of(before) + seq![view_of(element)] =~= views_of(before).push(
                view_of(element),
            ));
        }
    }
}

impl Default for Sequential {
    /// An empty sequential grouping.
    fn default() -> (r: Sequential)
        ensures
            r@ == Seq::<Score>::empty(),
    {
        Sequential::new()
    }
}

impl Parallel {
    /// Creates an empty parallel grouping.
    pub fn new() -> (r: Parallel)
        ensures
            r@ == Seq::<Score>::empty(),
    {
        Parallel { elements: Vec::new() }
    }

    /// Appends an element to the grouping.
    pub fn push(&mut self, element: MusicElement)
        ensures
            final(self)@ == old(self)@.push(element@),
    {
        let ghost before = self.elements@;
        self.elements.push(element);
        proof {
            assert(self.elements@ =~= before + seq![element]);
            lemma_views_of_concat(before, seq![element]);
            lemma_views_of_singleton(element);
            assert(views_of(before) + seq![view_of(element)] =~= views_of(before).push(
                view_of(element),
            ));
        }
    }
}

impl Default for Parallel {
    /// An empty parallel grouping.
    fn default() -> (r: Parallel)
        ensures
            r@ == Seq::<Score>::empty(),
    {
        Parallel::new()
    }
}

} // verus!
