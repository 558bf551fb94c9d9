//! Scheduling of notes and progress markers on the step grid, and the
//! progress reports of a playing sequence.
use vstd::prelude::*;
use std::sync::Arc;
use std::sync::atomic::AtomicU64;
use crate::marker::{share, Marker};
use crate::note::SpecifiedNote;

verus! {

/// A span of the step grid: it starts at step `start` and lasts `length`
/// steps.
#[derive(Clone, Copy, Debug, PartialEq, Eq, Structural)]
pub struct Slot {
    pub start: u64,
    pub length: u64,
}

/// Where a note plays: from its position, for its length, in steps.
pub fn note_slot(note: &SpecifiedNote) -> (r: Slot)
    ensures
        r.start == note.position,
        r.length == note.length,
{
    Slot { start: note.position, length: note.length }
}

/// The number of steps of a sequence.
pub fn total_steps(beats: u64, divisions: u64) -> (r: u64)
    requires
        beats * divisions <= u64::MAX,
    ensures
        r == beats * divisions,
{
    beats * divisions
}

/// What a sequence schedules: each note in its slot, and one marker per step,
/// whose payload is the step's index and whose slot is that step.
pub struct SequencePlan {
    pub notes: Vec<(SpecifiedNote, Slot)>,
    pub markers: Vec<(u64, Slot)>,
    pub total: u64,
}

/// Plans a sequence of `beats` beats of `divisions` steps each.
pub fn plan_sequence(beats: u64, divisions: u64, notes: &Vec<SpecifiedNote>) -> (r: SequencePlan)
    requires
        beats * divisions <= u64::MAX,
    ensures
        r.total == beats * divisions,
        r.notes@.len() == notes@.len(),
        forall|i: int| 0 <= i < notes@.len() ==> (#[trigger] r.notes@[i]) == (notes@[i], Slot {
            start: notes@[i].position,
            length: notes@[i].length,
        }),
        r.markers@.len() == r.total,
        forall|i: int| 0 <= i < r.total ==> (#[trigger] r.markers@[i]) == (i as u64, Slot { start: i as u64, length: 1 }),
{
    let total = total_steps(beats, divisions);
    let mut planned: Vec<(SpecifiedNote, Slot)> = Vec::new();
    let mut k: usize = 0;
    while k < notes.len()
        invariant
            k <= notes@.len(),
            planned@.len() == k,
            forall|i: int| 0 <= i < k ==> (#[trigger] planned@[i]) == (notes@[i], Slot {
                start: notes@[i].position,
                length: notes@[i].length,
            }),
        decreases notes@.len() - k,
    {
        let n = notes[k];
        planned.push((n, note_slot(&n)));
        k = k + 1;
    }
    let mut markers: Vec<(u64, Slot)> = Vec::new();
    let mut i: u64 = 0;
    while i < total
        invariant
            i <= total,
            markers@.len() == i,
            forall|j: int| 0 <= j < i ==> (#[trigger] markers@[j]) == (j as u64, Slot { start: j as u64, length: 1 }),
        decreases total - i,
    {
        markers.push((i, Slot { start: i, length: 1 }));
        i = i + 1;
    }
    SequencePlan { notes: planned, markers, total }
}

/// The markers of a sequence, one per planned marker slot, all stamping the
/// one counter of this sequence.
pub fn sequence_markers(markers: &Vec<(u64, Slot)>, counter: &Arc<AtomicU64>) -> (r: Vec<(Marker, Slot)>)
    ensures
        r@.len() == markers@.len(),
        forall|i: int| 0 <= i < markers@.len() ==> (#[trigger] r@[i]).0.payload == markers@[i].0
            && r@[i].0.output == *counter && r@[i].1 == markers@[i].1,
{
    let mut out: Vec<(Marker, Slot)> = Vec::new();
    let mut k: usize = 0;
    while k < markers.len()
        invariant
            k <= markers@.len(),
            out@.len() == k,
            forall|i: int| 0 <= i < k ==> (#[trigger] out@[i]).0.payload == markers@[i].0
                && out@[i].0.output == *counter && out@[i].1 == markers@[i].1,
        decreases markers@.len() - k,
    {
        let (payload, slot) = markers[k];
        out.push((Marker::new(payload, share(counter)), slot));
        k = k + 1;
    }
    out
}

/// Progress reporting of one sequence of `total` steps: the value last sent,
/// and whether the counter still has to be polled.
#[derive(Clone, Copy, Debug, PartialEq, Eq, Structural)]
pub struct Progress {
    pub last: u64,
    pub total: u64,
}

/// The values sent after `last`, given the counter readings `obs` in order:
/// a reading is sent when it is new and below `total`; once `total - 1` has
/// been sent, polling stops and `total` is sent.
pub open spec fn deliveries(total: u64, last: u64, obs: Seq<u64>) -> Seq<u64>
    decreases obs.len(),
{
    if last + 1 >= total {
        seq![total]
    } else if obs.len() == 0 {
        Seq::empty()
    } else if last < obs[0] && obs[0] < total {
        seq![obs[0]] + deliveries(total, obs[0], obs.skip(1))
    } else {
        deliveries(total, last, obs.skip(1))
    }
}

/// Everything a sequence of `total` steps reports for the readings `obs`:
/// 0 first, then the deliveries.
pub open spec fn reports(total: u64, obs: Seq<u64>) -> Seq<u64> {
    if total == 0 {
        seq![0]
    } else {
        seq![0] + deliveries(total, 0, obs)
    }
}

pub open spec fn strictly_increasing(s: Seq<u64>) -> bool {
    forall|i: int, j: int| 0 <= i < j < s.len() ==> s[i] < s[j]
}

impl Progress {
    pub open spec fn wf(&self) -> bool {
        self.total == 0 || self.last < self.total
    }

    /// The progress of a sequence that has just started, having sent 0.
    pub fn new(total: u64) -> (r: Progress)
        ensures
            r.wf(),
            r.last == 0,
            r.total == total,
    {
        Progress { last: 0, total }
    }

    /// The counter still has to be polled: `total - 1` has not been sent.
    pub fn polling(&self) -> (r: bool)
        ensures
            r == (self.last + 1 < self.total),
    {
        self.total > 0 && self.last < self.total - 1
    }

    /// A reading of the counter: the value to send, if it is new.
    pub fn observe(&mut self, counter: u64) -> (r: Option<u64>)
        requires
            old(self).wf(),
        ensures
            final(self).wf(),
            final(self).total == old(self).total,
            old(self).last < counter < old(self).total ==> r == Some(counter) && final(self).last == counter,
            !(old(self).last < counter < old(self).total) ==> r.is_none() && final(self).last == old(self).last,
    {
        if self.last < counter && counter < self.total {
            self.last = counter;
            Some(counter)
        } else {
            None
        }
    }

    /// The value sent when polling ends: the number of steps.
    pub fn finish(&self) -> (r: u64)
        ensures
            r == self.total,
    {
        self.total
    }
}

/// Runs the progress reporting of a sequence of `total` steps over the
/// counter readings `obs`, one per poll, and returns what is sent. The
/// final `total` is sent only if the readings reach `total - 1`.
pub fn progress_values(total: u64, obs: &Vec<u64>) -> (r: Vec<u64>)
    ensures
        r@ == reports(total, obs@),
{
    let mut out: Vec<u64> = Vec::new();
    out.push(0);
    if total == 0 {
        return out;
    }
    let mut p = Progress::new(total);
    let mut k: usize = 0;
    assert(obs@.skip(0) =~= obs@);
    while k < obs.len() && p.polling()
        invariant
            p.wf(),
            p.total == total,
            total > 0,
            k <= obs@.len(),
            out@ + deliveries(total, p.last, obs@.skip(k as int)) == reports(total, obs@),
        decreases obs@.len() - k,
    {
        let ghost before = out@;
        let ghost last0 = p.last;
        let ghost rest = obs@.skip(k as int);
        assert(rest.skip(1) =~= obs@.skip(k + 1));
        match p.observe(obs[k]) {
            Some(v) => {
                out.push(v);
                assert(out@ + deliveries(total, p.last, obs@.skip(k + 1))
                    =~= before + (seq![v] + deliveries(total, v, rest.skip(1))));
            },
            None => {},
        }
        k = k + 1;
    }
    if !p.polling() {
        out.push(p.finish());
        assert(deliveries(total, p.last, obs@.skip(k as int)) == seq![total]);
    } else {
        assert(obs@.skip(k as int).len() == 0);
    }
    assert(out@ =~= reports(total, obs@));
    out
}

proof fn lemma_deliveries(total: u64, last: u64, obs: Seq<u64>)
    requires
        last < total,
    ensures
        strictly_increasing(deliveries(total, last, obs)),
        forall|i: int| 0 <= i < deliveries(total, last, obs).len()
            ==> last < #[trigger] deliveries(total, last, obs)[i] <= total,
        forall|i: int| 0 <= i < deliveries(total, last, obs).len() - 1
            ==> #[trigger] deliveries(total, last, obs)[i] < total,
    decreases obs.len(),
{
    if last + 1 >= total {
    } else if obs.len() == 0 {
    } else if last < obs[0] && obs[0] < total {
        lemma_deliveries(total, obs[0], obs.skip(1));
        let d = deliveries(total, obs[0], obs.skip(1));
        assert(deliveries(total, last, obs) == seq![obs[0]] + d);
        assert forall|i: int| 0 < i < d.len() + 1 implies (seq![obs[0]] + d)[i] == d[i - 1] by {}
    } else {
        lemma_deliveries(total, last, obs.skip(1));
    }
}

/// Whatever the counter readings, the values a sequence reports are strictly
/// increasing and start at 0; all but the last are below the number of steps,
/// and the last is the number of steps once polling has ended.
pub proof fn reports_are_increasing(total: u64, obs: Seq<u64>)
    ensures
        strictly_increasing(reports(total, obs)),
        reports(total, obs)[0] == 0,
        forall|i: int| 0 <= i < reports(total, obs).len() ==> #[trigger] reports(total, obs)[i] <= total,
        forall|i: int| 0 <= i < reports(total, obs).len() - 1 ==> #[trigger] reports(total, obs)[i] < total,
        total > 0 ==> deliveries(total, 0, obs).len() > 0 && deliveries(total, 0, obs).last() == total
            || reports(total, obs).last() < total,
{
    if total > 0 {
        lemma_deliveries(total, 0, obs);
        let d = deliveries(total, 0, obs);
        assert forall|i: int| 0 < i < d.len() + 1 implies (seq![0u64] + d)[i] == d[i - 1] by {}
        lemma_last_delivery(total, 0, obs);
    }
}

proof fn lemma_last_delivery(total: u64, last: u64, obs: Seq<u64>)
    requires
        last < total,
    ensures
        deliveries(total, last, obs).len() > 0 && deliveries(total, last, obs).last() == total
            || (forall|i: int| 0 <= i < deliveries(total, last, obs).len() ==> #[trigger] deliveries(total, last, obs)[i] < total),
    decreases obs.len(),
{
    if last + 1 >= total {
    } else if obs.len() == 0 {
    } else if last < obs[0] && obs[0] < total {
        lemma_last_delivery(total, obs[0], obs.skip(1));
        let d = deliveries(total, obs[0], obs.skip(1));
        let full = seq![obs[0]] + d;
        assert(deliveries(total, last, obs) == full);
        assert forall|i: int| 0 < i < d.len() + 1 implies full[i] == d[i - 1] by {}
        if d.len() > 0 && d.last() == total {
            assert(full.last() == d.last());
        } else {
            assert forall|i: int| 0 <= i < full.len() implies #[trigger] full[i] < total by {
                if i > 0 {
                    assert(full[i] == d[i - 1]);
                }
            }
        }
    } else {
        lemma_last_delivery(total, last, obs.skip(1));
        assert(deliveries(total, last, obs) == deliveries(total, last, obs.skip(1)));
    }
}

} // verus!
