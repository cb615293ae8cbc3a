//! Adaptive-resolution history and its stored form.
//!
//! Holds up to `HISTORY_CAPACITY` samples. Raw samples flow in through `commit`;
//! once `interval` of them have accumulated, their average is stored. When the
//! store is full, pairs of samples are averaged together, which halves the count
//! and doubles the interval: coverage grows exponentially in fixed memory. Once
//! the interval has reached its cap, the oldest sample is dropped instead.
//!
//! Stored form, little-endian: format version, interval, count, and then per
//! sample its time, voltage, the two currents and the online figure, four bytes
//! each. A blob of another version is refused, and the caller starts fresh.

use crate::data::blob::{
    decode, decoded, encode_into, encoded, encoded_length, stored_form_round_trips,
};
use crate::wire::overwritten;
use crate::data::Sample;
use crate::float::{number, F32};
use vstd::arithmetic::power2::*;
use vstd::prelude::*;

verus! {

/// Upper bound on the stored form.
pub const SERIALIZED_MAX_BYTES: usize = 4096;

/// Version, interval and count.
pub const HEADER_SIZE: usize = 12;

/// Time and four numbers.
pub const SAMPLE_SIZE: usize = 20;

/// Samples held at most.
pub const HISTORY_CAPACITY: usize = 204;

/// The interval at which the window slides instead of coarsening further.
pub const MAX_INTERVAL: u32 = 64;

/// The version of the stored form.
pub const FORMAT_VERSION: u32 = 7;

/// `heapless::Vec`, a vector of fixed capacity.
#[verifier::external_type_specification]
#[verifier::external_body]
#[verifier::reject_recursive_types(T)]
pub struct ExFixedVec<T, const N: usize>(heapless::Vec<T, N>);

/// The samples in a store, in order.
pub uninterp spec fn stored(v: heapless::Vec<Sample, 204>) -> Seq<Sample>;

/// `heapless::Vec::new`: a store that holds nothing.
#[verifier::external_body]
pub(crate) fn store_new() -> (v: heapless::Vec<Sample, 204>)
    ensures
        stored(v) == Seq::<Sample>::empty(),
{
    heapless::Vec::new()
}

/// `heapless::Vec::as_slice`: the samples in order; never more than the capacity.
#[verifier::external_body]
pub(crate) fn store_slice(v: &heapless::Vec<Sample, 204>) -> (s: &[Sample])
    ensures
        s@ == stored(*v),
        s@.len() <= 204,
{
    v.as_slice()
}

/// `heapless::Vec::clear`: takes every sample out.
#[verifier::external_body]
pub(crate) fn store_clear(v: &mut heapless::Vec<Sample, 204>)
    ensures
        stored(*final(v)) == Seq::<Sample>::empty(),
{
    v.clear()
}

/// `heapless::Vec::push`: appends a sample, or hands it back where the store is at
/// its capacity.
#[verifier::external_body]
pub(crate) fn store_push(v: &mut heapless::Vec<Sample, 204>, s: Sample) -> (r: Result<(), Sample>)
    ensures
        match r {
            Ok(_) => stored(*old(v)).len() < 204 && stored(*final(v)) == stored(*old(v)).push(s),
            Err(back) => stored(*old(v)).len() >= 204 && back == s && stored(*final(v)) == stored(
                *old(v),
            ),
        },
{
    v.push(s)
}

/// `heapless::Vec::remove`: takes the sample at `i` out and moves the later ones
/// down. It panics where there is none.
#[verifier::external_body]
pub(crate) fn store_remove(v: &mut heapless::Vec<Sample, 204>, i: usize) -> (s: Sample)
    requires
        i < stored(*old(v)).len(),
    ensures
        s == stored(*old(v))[i as int],
        stored(*final(v)) == stored(*old(v)).remove(i as int),
{
    v.remove(i)
}

/// `heapless::Vec::deref_mut`, and an assignment through it: puts `s` in place of
/// the sample at `i`. It panics where there is none.
#[verifier::external_body]
pub(crate) fn store_set(v: &mut heapless::Vec<Sample, 204>, i: usize, s: Sample)
    requires
        i < stored(*old(v)).len(),
    ensures
        stored(*final(v)) == stored(*old(v)).update(i as int, s),
{
    v[i] = s;
}

/// `heapless::Vec::truncate`: keeps the first `n` samples.
#[verifier::external_body]
pub(crate) fn store_truncate(v: &mut heapless::Vec<Sample, 204>, n: usize)
    ensures
        stored(*final(v)) == (if n <= stored(*old(v)).len() {
            stored(*old(v)).take(n as int)
        } else {
            stored(*old(v))
        }),
{
    v.truncate(n)
}

/// Running sums of the fields of a sample.
#[derive(Clone, Copy, Debug, PartialEq, Eq, Structural)]
pub struct SampleAccum {
    pub voltage: F32,
    pub battery_current: F32,
    pub ps_current: F32,
    pub power_online: F32,
}

impl Default for SampleAccum {
    /// Nothing summed yet.
    fn default() -> (acc: Self)
        ensures
            acc == SampleAccum::zero(),
    {
        let z = F32::from_bits(0);
        SampleAccum { voltage: z, battery_current: z, ps_current: z, power_online: z }
    }
}

impl SampleAccum {
    /// Nothing summed yet.
    pub open spec fn zero() -> SampleAccum {
        SampleAccum {
            voltage: number(0),
            battery_current: number(0),
            ps_current: number(0),
            power_online: number(0),
        }
    }

    /// The sums with one more sample.
    pub open spec fn plus(self, s: Sample) -> SampleAccum {
        SampleAccum {
            voltage: self.voltage.sum(s.voltage),
            battery_current: self.battery_current.sum(s.battery_current),
            ps_current: self.ps_current.sum(s.ps_current),
            power_online: self.power_online.sum(s.power_online),
        }
    }

    /// The sums over `n`, stamped `time_s`.
    pub open spec fn mean(self, n: u32, time_s: u32) -> Sample {
        let d = F32::of_integer(n as nat);
        Sample {
            time_s,
            voltage: self.voltage.quotient(d),
            battery_current: self.battery_current.quotient(d),
            ps_current: self.ps_current.quotient(d),
            power_online: self.power_online.quotient(d),
        }
    }

    /// Adds a sample.
    pub fn add(&mut self, s: &Sample)
        ensures
            *final(self) == old(self).plus(*s),
    {
        self.voltage = self.voltage.add(s.voltage);
        self.battery_current = self.battery_current.add(s.battery_current);
        self.ps_current = self.ps_current.add(s.ps_current);
        self.power_online = self.power_online.add(s.power_online);
    }

    /// Mean of the `n` samples added so far, stamped `time_s`.
    pub fn average(&self, n: u32, time_s: u32) -> (s: Sample)
        requires
            n > 0,
        ensures
            s == self.mean(n, time_s),
    {
        let d = F32::from_u32(n);
        Sample {
            time_s,
            voltage: self.voltage.div(d),
            battery_current: self.battery_current.div(d),
            ps_current: self.ps_current.div(d),
            power_online: self.power_online.div(d),
        }
    }
}

/// Two neighbouring samples as one, stamped by the end of the span it covers.
pub open spec fn pair_mean(a: Sample, b: Sample) -> Sample {
    SampleAccum::zero().plus(a).plus(b).mean(2, b.time_s)
}

/// Neighbouring pairs averaged.
pub open spec fn halved(samples: Seq<Sample>) -> Seq<Sample> {
    Seq::new(samples.len() / 2, |i: int| pair_mean(samples[2 * i], samples[2 * i + 1]))
}

/// What a history holds.
pub ghost struct HistoryState {
    pub samples: Seq<Sample>,
    /// How many raw samples make one stored sample.
    pub interval: u32,
    pub acc: SampleAccum,
    pub acc_count: u32,
    /// The interval at which the window slides.
    pub max_interval: u32,
}

impl HistoryState {
    /// Nothing recorded yet.
    pub open spec fn empty(max_interval: u32) -> HistoryState {
        HistoryState {
            samples: Seq::empty(),
            interval: 1,
            acc: SampleAccum::zero(),
            acc_count: 0,
            max_interval,
        }
    }

    /// Within its capacity, with fewer raw samples pending than make one stored.
    pub open spec fn wf(self) -> bool {
        &&& self.samples.len() <= HISTORY_CAPACITY
        &&& self.acc_count < self.interval
        &&& 1 <= self.max_interval <= 0x8000_0000
    }

    /// Room for one more sample: a full store is halved below the cap on the
    /// interval, and loses its oldest sample at it.
    pub open spec fn with_room(self) -> HistoryState {
        if self.samples.len() < HISTORY_CAPACITY {
            self
        } else if self.interval < self.max_interval {
            HistoryState {
                samples: halved(self.samples),
                interval: (self.interval * 2) as u32,
                ..self
            }
        } else {
            HistoryState { samples: self.samples.drop_first(), ..self }
        }
    }

    /// One raw sample more.
    pub open spec fn committed(self, raw: Sample) -> HistoryState {
        let acc = self.acc.plus(raw);
        let n = (self.acc_count + 1) as u32;
        if n < self.interval {
            HistoryState { acc, acc_count: n, ..self }
        } else {
            let room = self.with_room();
            HistoryState {
                samples: room.samples.push(acc.mean(n, raw.time_s)),
                acc: SampleAccum::zero(),
                acc_count: 0,
                ..room
            }
        }
    }

    /// Several raw samples, one after the other.
    pub open spec fn committed_all(self, raws: Seq<Sample>) -> HistoryState
        decreases raws.len(),
    {
        if raws.len() == 0 {
            self
        } else {
            self.committed_all(raws.drop_last()).committed(raws.last())
        }
    }

    /// What was restored from a stored form takes the place of what was held.
    pub open spec fn restored(self, interval: u32, samples: Seq<Sample>) -> HistoryState {
        HistoryState { samples, interval, acc: SampleAccum::zero(), acc_count: 0, ..self }
    }
}

/// A history of samples of growing spacing.
pub struct History {
    samples: heapless::Vec<Sample, 204>,
    interval: u32,
    acc: SampleAccum,
    acc_count: u32,
    max_interval: u32,
}

impl Default for History {
    /// An empty history.
    fn default() -> (h: Self)
        ensures
            h@ == HistoryState::empty(MAX_INTERVAL),
            h.wf(),
    {
        History::new()
    }
}

impl History {
    /// What the history holds.
    pub closed spec fn view(&self) -> HistoryState {
        HistoryState {
            samples: stored(self.samples),
            interval: self.interval,
            acc: self.acc,
            acc_count: self.acc_count,
            max_interval: self.max_interval,
        }
    }

    /// The history's invariant.
    pub open spec fn wf(&self) -> bool {
        self@.wf()
    }

    /// An empty history with the usual cap on its interval.
    pub fn new() -> (h: History)
        ensures
            h@ == HistoryState::empty(MAX_INTERVAL),
            h.wf(),
    {
        History::with_max_interval(MAX_INTERVAL)
    }

    /// An empty history whose window slides from the given interval on.
    pub fn with_max_interval(max_interval: u32) -> (h: History)
        requires
            1 <= max_interval <= 0x8000_0000,
        ensures
            h@ == HistoryState::empty(max_interval),
            h.wf(),
    {
        History {
            samples: store_new(),
            interval: 1,
            acc: SampleAccum::default(),
            acc_count: 0,
            max_interval,
        }
    }

    /// The stored samples, at most `HISTORY_CAPACITY` of them.
    pub fn samples(&self) -> (s: &[Sample])
        ensures
            s@ == self@.samples,
            s@.len() <= HISTORY_CAPACITY,
    {
        store_slice(&self.samples)
    }

    /// How many raw samples make one stored sample.
    pub fn interval(&self) -> (n: u32)
        ensures
            n == self@.interval,
    {
        self.interval
    }

    /// The time of the newest stored sample.
    pub fn last_time(&self) -> (t: Option<u32>)
        ensures
            t == (if self@.samples.len() == 0 {
                None
            } else {
                Some(self@.samples.last().time_s)
            }),
    {
        let s = store_slice(&self.samples);
        if s.len() == 0 {
            None
        } else {
            Some(s[s.len() - 1].time_s)
        }
    }

    /// Feeds one raw sample in. Once `interval` of them have accumulated, stores
    /// their average, making room first if the store is full.
    pub fn commit(&mut self, raw: Sample)
        requires
            old(self).wf(),
        ensures
            final(self)@ == old(self)@.committed(raw),
            final(self).wf(),
    {
        self.acc.add(&raw);
        self.acc_count = self.acc_count + 1;
        if self.acc_count < self.interval {
            return;
        }
        let averaged = self.acc.average(self.acc_count, raw.time_s);
        self.acc = SampleAccum::default();
        self.acc_count = 0;
        self.compact_if_needed();
        let _ = store_push(&mut self.samples, averaged);
    }

    /// Makes room for one more sample where there is none.
    pub fn compact_if_needed(&mut self)
        requires
            old(self).wf(),
        ensures
            final(self).wf(),
            final(self)@ == old(self)@.with_room(),
            final(self)@.samples.len() < HISTORY_CAPACITY,
    {
        let len = store_slice(&self.samples).len();
        if len < HISTORY_CAPACITY {
            return;
        }
        if self.interval >= self.max_interval {
            let _ = store_remove(&mut self.samples, 0);
            assert(self@.samples =~= old(self)@.samples.drop_first());
            return;
        }
        self.compact();
    }

    /// Halves the store by averaging neighbouring pairs, and doubles the interval
    /// that each sample stands for.
    fn compact(&mut self)
        requires
            old(self)@.interval < 0x8000_0000,
        ensures
            final(self)@ == (HistoryState {
                samples: halved(old(self)@.samples),
                interval: (old(self)@.interval * 2) as u32,
                ..old(self)@
            }),
    {
        let ghost before = stored(self.samples);
        let half = store_slice(&self.samples).len() / 2;
        let mut i: usize = 0;
        while i < half
            invariant
                i <= half,
                half == before.len() / 2,
                stored(self.samples).len() == before.len(),
                before.len() <= 204,
                forall|j: int| 0 <= j < i ==> stored(self.samples)[j] == #[trigger] halved(before)[j],
                forall|j: int|
                    2 * i <= j < before.len() ==> (#[trigger] stored(self.samples)[j])
                        == before[j],
                self.interval == old(self).interval,
                self.acc == old(self).acc,
                self.acc_count == old(self).acc_count,
                self.max_interval == old(self).max_interval,
            decreases half - i,
        {
            let all = store_slice(&self.samples);
            let first = all[2 * i];
            let second = all[2 * i + 1];
            let mut pair = SampleAccum::default();
            pair.add(&first);
            pair.add(&second);
            let merged = pair.average(2, second.time_s);
            store_set(&mut self.samples, i, merged);
            i = i + 1;
        }
        store_truncate(&mut self.samples, half);
        self.interval = self.interval * 2;
        assert(stored(self.samples) =~= halved(before));
    }

    /// Puts restored samples in place of what is held.
    pub(crate) fn restore(&mut self, interval: u32, samples: &[Sample])
        requires
            old(self).wf(),
            interval >= 1,
            samples@.len() <= HISTORY_CAPACITY,
        ensures
            final(self)@ == old(self)@.restored(interval, samples@),
            final(self).wf(),
    {
        store_clear(&mut self.samples);
        self.interval = interval;
        self.acc = SampleAccum::default();
        self.acc_count = 0;
        let mut i: usize = 0;
        while i < samples.len()
            invariant
                i <= samples@.len() <= HISTORY_CAPACITY,
                stored(self.samples) =~= samples@.take(i as int),
                self.interval == interval,
                self.acc == SampleAccum::zero(),
                self.acc_count == 0,
                self.max_interval == old(self).max_interval,
            decreases samples.len() - i,
        {
            let _ = store_push(&mut self.samples, samples[i]);
            i = i + 1;
        }
        assert(stored(self.samples) =~= samples@);
    }
}

/// Writes the stored form of a history over the start of `out` and returns its
/// length. `out` has to be long enough, which `SERIALIZED_MAX_BYTES` always are.
pub fn serialize_into(history: &History, out: &mut [u8]) -> (n: usize)
    requires
        old(out)@.len() >= HEADER_SIZE + history@.samples.len() * SAMPLE_SIZE,
    ensures
        n == HEADER_SIZE + history@.samples.len() * SAMPLE_SIZE,
        final(out)@ == overwritten(
            old(out)@,
            0,
            encoded(FORMAT_VERSION, history@.interval, history@.samples),
        ),
{
    encode_into(FORMAT_VERSION, history.interval(), history.samples(), out)
}

/// Restores a history from its stored form in place of what it holds. Returns
/// `false` and changes nothing where the bytes are malformed: another version, a
/// zero count or interval, samples cut short. Of more samples than fit, the newest
/// are kept.
pub fn deserialize(bytes: &[u8], history: &mut History) -> (ok: bool)
    requires
        old(history).wf(),
    ensures
        final(history).wf(),
        ok == decoded(FORMAT_VERSION, bytes@) is Some,
        ok ==> final(history)@ == old(history)@.restored(
            (decoded(FORMAT_VERSION, bytes@)->0).0,
            (decoded(FORMAT_VERSION, bytes@)->0).1,
        ),
        !ok ==> *final(history) == *old(history),
{
    match decode(FORMAT_VERSION, bytes) {
        Some((interval, samples)) => {
            history.restore(interval, samples.as_slice());
            true
        },
        None => false,
    }
}

/// Stamped in strictly increasing order.
pub open spec fn chronological(samples: Seq<Sample>) -> bool {
    forall|i: int, j: int|
        0 <= i < j < samples.len() ==> (#[trigger] samples[i]).time_s < (
        #[trigger] samples[j]).time_s
}

/// The invariant survives every commit, so a history never outgrows its capacity.
pub proof fn commit_keeps_bounds(h: HistoryState, raw: Sample)
    requires
        h.wf(),
    ensures
        h.committed(raw).wf(),
        h.committed(raw).max_interval == h.max_interval,
        h.committed(raw).interval == h.interval || h.committed(raw).interval == 2 * h.interval,
{
}

/// A sample stamped after the newest one leaves a chronological history
/// chronological, whether it is stored at once, averaged, or made room for.
pub proof fn commit_keeps_order(h: HistoryState, raw: Sample)
    requires
        h.wf(),
        chronological(h.samples),
        h.samples.len() > 0 ==> h.samples.last().time_s < raw.time_s,
    ensures
        chronological(h.committed(raw).samples),
{
    let room = h.with_room();
    let out = h.committed(raw).samples;
    assert forall|i: int, j: int| 0 <= i < j < room.samples.len() implies (
    #[trigger] room.samples[i]).time_s < (#[trigger] room.samples[j]).time_s by {
        if h.samples.len() >= HISTORY_CAPACITY {
            if h.interval < h.max_interval {
                assert(room.samples[i].time_s == h.samples[2 * i + 1].time_s);
                assert(room.samples[j].time_s == h.samples[2 * j + 1].time_s);
            } else {
                assert(room.samples[i] == h.samples[i + 1]);
                assert(room.samples[j] == h.samples[j + 1]);
            }
        }
    }
    if room.samples.len() > 0 {
        let last = room.samples.len() - 1;
        if h.samples.len() >= HISTORY_CAPACITY && h.interval < h.max_interval {
            assert(room.samples[last].time_s == h.samples[2 * last + 1].time_s);
        } else if h.samples.len() >= HISTORY_CAPACITY {
            assert(room.samples[last] == h.samples[last + 1]);
        }
        assert(room.samples[last].time_s < raw.time_s);
    }
}

/// The newest stored sample is stamped with the raw sample that completed it.
pub proof fn commit_stamps_the_newest(h: HistoryState, raw: Sample)
    requires
        h.wf(),
    ensures
        h.acc_count + 1 >= h.interval ==> h.committed(raw).samples.len() > 0 && h.committed(
            raw,
        ).samples.last().time_s == raw.time_s,
        h.acc_count + 1 < h.interval ==> h.committed(raw).samples == h.samples,
{
}

/// The interval doubles from 1 and stops at a cap that is a power of two: it is
/// always a power of two and never above the cap.
pub proof fn interval_stays_within_its_cap(max_exponent: nat, raws: Seq<Sample>) -> (exponent: nat)
    requires
        max_exponent <= 31,
    ensures
        exponent <= max_exponent,
        HistoryState::empty(pow2(max_exponent) as u32).committed_all(raws).interval == pow2(
            exponent,
        ),
        HistoryState::empty(pow2(max_exponent) as u32).committed_all(raws).wf(),
    decreases raws.len(),
{
    let start = HistoryState::empty(pow2(max_exponent) as u32);
    lemma2_to64();
    lemma_pow2_pos(max_exponent);
    if max_exponent < 31 {
        lemma_pow2_strictly_increases(max_exponent, 31);
    }
    if raws.len() == 0 {
        0
    } else {
        let before = start.committed_all(raws.drop_last());
        let e = interval_stays_within_its_cap(max_exponent, raws.drop_last());
        commit_keeps_bounds(before, raws.last());
        lemma_max_interval_kept(start, raws.drop_last());
        if before.committed(raws.last()).interval == before.interval {
            e
        } else {
            lemma_pow2_unfold(e + 1);
            if e >= max_exponent {
                assert(e == max_exponent);
            }
            e + 1
        }
    }
}

proof fn lemma_max_interval_kept(h: HistoryState, raws: Seq<Sample>)
    ensures
        h.committed_all(raws).max_interval == h.max_interval,
    decreases raws.len(),
{
    if raws.len() > 0 {
        lemma_max_interval_kept(h, raws.drop_last());
    }
}

/// At the cap the window slides: a full history keeps its length and its interval,
/// loses its oldest sample and gains the newest.
pub proof fn window_slides_at_the_cap(h: HistoryState, raw: Sample)
    requires
        h.wf(),
        h.samples.len() == HISTORY_CAPACITY,
        h.interval >= h.max_interval,
        h.acc_count + 1 >= h.interval,
    ensures
        h.committed(raw).samples == h.samples.drop_first().push(
            h.acc.plus(raw).mean((h.acc_count + 1) as u32, raw.time_s),
        ),
        h.committed(raw).interval == h.interval,
{
}

/// Below the cap a full history is halved before the newest sample is stored.
pub proof fn full_history_is_halved_below_the_cap(h: HistoryState, raw: Sample)
    requires
        h.wf(),
        h.samples.len() == HISTORY_CAPACITY,
        h.interval < h.max_interval,
        h.acc_count + 1 >= h.interval,
    ensures
        h.committed(raw).samples.len() == HISTORY_CAPACITY / 2 + 1,
        h.committed(raw).interval == 2 * h.interval,
{
}

/// A history comes back from its stored form: the same samples at the same
/// interval, with nothing accumulated. Bytes that follow the stored form do not
/// matter.
pub proof fn history_round_trips(h: HistoryState, into: HistoryState, rest: Seq<u8>)
    requires
        h.wf(),
        into.wf(),
        h.samples.len() > 0,
    ensures
        ({
            let blob = encoded(FORMAT_VERSION, h.interval, h.samples) + rest;
            &&& decoded(FORMAT_VERSION, blob) == Some((h.interval, h.samples))
            &&& into.restored(h.interval, h.samples).samples == h.samples
            &&& into.restored(h.interval, h.samples).interval == h.interval
            &&& into.restored(h.interval, h.samples).wf()
        }),
{
    stored_form_round_trips(FORMAT_VERSION, h.interval, h.samples, rest);
}

/// The usual cap is a power of two, so that the doubling interval meets it, and the
/// capacity is even, so that a full history halves without a rest.
pub proof fn sizes_fit_together()
    ensures
        MAX_INTERVAL == pow2(6),
        HISTORY_CAPACITY % 2 == 0,
        HEADER_SIZE + HISTORY_CAPACITY * SAMPLE_SIZE <= SERIALIZED_MAX_BYTES,
{
    lemma2_to64();
}

/// The stored form of any history fits the bound.
pub proof fn stored_form_fits(h: HistoryState)
    requires
        h.wf(),
    ensures
        encoded(FORMAT_VERSION, h.interval, h.samples).len() <= SERIALIZED_MAX_BYTES,
{
    encoded_length(FORMAT_VERSION, h.interval, h.samples);
}

} // verus!
