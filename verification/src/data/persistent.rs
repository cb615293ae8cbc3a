//! A data store that records on update and keeps its history across restarts.
//!
//! A sample is recorded once both sides have been updated since the last one. The
//! history is loaded from the platform with the first sample and saved to it every
//! `SAVE_INTERVAL_S` seconds.

use crate::data::blob::{decode, decoded, encode_into, encoded, encoded_length};
use crate::data::history::{
    store_clear, store_new, store_push, store_remove, store_set, store_slice, store_truncate,
    stored, SampleAccum, HISTORY_CAPACITY,
};
use crate::wire::{overwritten, put_bytes};
use crate::data::{Ina228Reading, PsReading, Sample, ONE};
use crate::float::{number, F32};
use vstd::prelude::*;
use vstd::slice::slice_subrange;

verus! {

/// The version of the stored form.
pub const FORMAT_VERSION: u32 = 6;

/// Supply current above which the supply counts as online: 0.1 A.
pub const POWER_ONLINE_THRESHOLD: u32 = 0x3dcc_cccd;

/// The bits of 2.
pub const TWO: u32 = 0x4000_0000;

/// The size of the buffer for the stored form.
pub const MAX_BLOB_SIZE: usize = 4096;

/// The interval from which old samples are dropped instead of merged.
pub const MAX_INTERVAL: u32 = 1024;

/// Seconds between saves.
pub const SAVE_INTERVAL_S: u32 = 600;

/// `data` is the stored form of some history.
pub open spec fn is_stored_form(data: Seq<u8>) -> bool {
    exists|interval: u32, samples: Seq<Sample>|
        #![trigger encoded(FORMAT_VERSION, interval, samples)]
        samples.len() <= HISTORY_CAPACITY && data == encoded(FORMAT_VERSION, interval, samples)
}

/// A call that reads or changes what the board keeps.
pub ghost enum BoardCall {
    /// Handed a buffer with the bytes `handed`, the board left `left` in it and
    /// returned `len`.
    Load { handed: Seq<u8>, len: Option<usize>, left: Seq<u8> },
    /// The board was handed `form` to keep.
    Save { form: Seq<u8> },
}

/// What the board provides. Whoever runs the store implements it.
pub trait Platform {
    /// Every load and save so far, in order. A board that is verified says what it
    /// was asked; one that is not has nothing to say.
    closed spec fn calls(&self) -> Seq<BoardCall> {
        Seq::empty()
    }

    /// The board's clock has been read as `t`.
    closed spec fn told_time(&self, t: Option<u32>) -> bool {
        true
    }

    /// Seconds since the epoch; `None` while the clock is not set.
    fn epoch_s(&self) -> (t: Option<u32>)
        ensures
            self.told_time(t),
    ;

    /// Keeps a stored form across restarts.
    fn save_blob(&mut self, data: &[u8])
        requires
            is_stored_form(data@),
        ensures
            final(self).calls() == old(self).calls().push((BoardCall::Save { form: data@ })),
    ;

    /// Copies what was kept into `buf`. Returns how many bytes that were, or `None`
    /// if nothing was kept.
    fn load_blob(&mut self, buf: &mut [u8]) -> (n: Option<usize>)
        ensures
            final(buf)@.len() == old(buf)@.len(),
            n is Some ==> n->0 <= old(buf)@.len(),
            final(self).calls() == old(self).calls().push(
                (BoardCall::Load { handed: old(buf)@, len: n, left: final(buf)@ }),
            ),
    ;
}

/// Two neighbouring samples as one, stamped by the later.
pub open spec fn merged(a: Sample, b: Sample) -> Sample {
    Sample {
        time_s: b.time_s,
        voltage: a.voltage.sum(b.voltage).quotient(number(TWO)),
        battery_current: a.battery_current.sum(b.battery_current).quotient(number(TWO)),
        ps_current: a.ps_current.sum(b.ps_current).quotient(number(TWO)),
        power_online: a.power_online.sum(b.power_online).quotient(number(TWO)),
    }
}

/// Neighbouring pairs merged.
pub open spec fn pairs_merged(samples: Seq<Sample>) -> Seq<Sample> {
    Seq::new(samples.len() / 2, |i: int| merged(samples[2 * i], samples[2 * i + 1]))
}

/// A length as a number.
pub open spec fn as_nat(len: Option<usize>) -> Option<nat> {
    match len {
        Some(n) => Some(n as nat),
        None => None,
    }
}

/// What the store knows.
pub ghost struct KeptState {
    pub battery: Option<Ina228Reading>,
    pub ps: Option<PsReading>,
    pub battery_updated: bool,
    pub ps_updated: bool,
    pub samples: Seq<Sample>,
    pub interval: u32,
    pub acc: SampleAccum,
    pub acc_count: u32,
    pub loaded: bool,
    pub last_save_s: u32,
    pub buf: Seq<u8>,
}

impl KeptState {
    /// Nothing read, nothing recorded, nothing loaded.
    pub open spec fn fresh() -> KeptState {
        KeptState {
            battery: None,
            ps: None,
            battery_updated: false,
            ps_updated: false,
            samples: Seq::empty(),
            interval: 1,
            acc: SampleAccum::zero(),
            acc_count: 0,
            loaded: false,
            last_save_s: 0,
            buf: Seq::new(MAX_BLOB_SIZE as nat, |i: int| 0u8),
        }
    }

    /// Within its capacity, with fewer raw samples pending than make one recorded.
    pub open spec fn wf(self) -> bool {
        &&& self.samples.len() <= HISTORY_CAPACITY
        &&& self.acc_count < self.interval
        &&& self.buf.len() == MAX_BLOB_SIZE
        &&& self.battery_updated ==> self.battery is Some
        &&& self.ps_updated ==> self.ps is Some
    }

    /// Both sides have been updated since the last sample.
    pub open spec fn due(self) -> bool {
        self.battery_updated && self.ps_updated
    }

    /// 1 when the latest supply reading shows measurable current, else 0.
    pub open spec fn online(self) -> F32 {
        match self.ps {
            Some(ps) => if number(POWER_ONLINE_THRESHOLD).below(ps.current.absolute()) {
                number(ONE)
            } else {
                number(0)
            },
            None => number(0),
        }
    }

    /// What the first `len` bytes of the buffer store takes the place of the
    /// history, if they are a stored form.
    pub open spec fn read(self, len: nat) -> KeptState {
        match decoded(FORMAT_VERSION, self.buf.take(len as int)) {
            Some((interval, samples)) => KeptState {
                samples,
                interval,
                acc: SampleAccum::zero(),
                acc_count: 0,
                ..self
            },
            None => self,
        }
    }

    /// The first sample loads what was kept; saving starts from its time.
    pub open spec fn with_loaded(self, time_s: u32, len: Option<nat>) -> KeptState {
        if self.loaded {
            self
        } else {
            let after = match len {
                Some(n) => self.read(n),
                None => self,
            };
            KeptState { loaded: true, last_save_s: time_s, ..after }
        }
    }

    /// Room for one more sample: a full history is merged below the cap on the
    /// interval, and loses its oldest sample at it.
    pub open spec fn with_room(self) -> KeptState {
        if self.samples.len() < HISTORY_CAPACITY {
            self
        } else if self.interval >= MAX_INTERVAL {
            KeptState { samples: self.samples.drop_first(), ..self }
        } else {
            KeptState {
                samples: pairs_merged(self.samples),
                interval: (self.interval * 2) as u32,
                ..self
            }
        }
    }

    /// One raw sample more.
    pub open spec fn recorded(self, raw: Sample) -> KeptState {
        let acc = self.acc.plus(raw);
        let n = (self.acc_count + 1) as u32;
        if n < self.interval {
            KeptState { acc, acc_count: n, ..self }
        } else {
            let room = self.with_room();
            KeptState {
                samples: room.samples.push(acc.mean(n, raw.time_s)),
                acc: SampleAccum::zero(),
                acc_count: 0,
                ..room
            }
        }
    }

    /// The raw sample of the latest readings.
    pub open spec fn raw_sample(self, time_s: u32) -> Sample {
        Sample {
            time_s,
            voltage: self.battery->0.voltage,
            battery_current: self.battery->0.current,
            ps_current: self.ps->0.current,
            power_online: self.online(),
        }
    }

    /// Time to save: the interval has passed since the last save. A clock that was
    /// stepped back saves nothing.
    pub open spec fn save_due(self, time_s: u32) -> bool {
        time_s - self.last_save_s >= SAVE_INTERVAL_S
    }

    /// The stored form of the history.
    pub open spec fn stored_form(self) -> Seq<u8> {
        encoded(FORMAT_VERSION, self.interval, self.samples)
    }

    /// A save: the stored form stands at the start of the buffer.
    pub open spec fn saved(self, time_s: u32) -> KeptState {
        KeptState {
            last_save_s: time_s,
            buf: overwritten(self.buf, 0, self.stored_form()),
            ..self
        }
    }

    /// One sample at `time_s`, with what the platform put into the buffer.
    pub open spec fn sampled(self, time_s: u32, len: Option<nat>) -> KeptState {
        let flagged = KeptState { battery_updated: false, ps_updated: false, ..self };
        let loaded = flagged.with_loaded(time_s, len);
        loaded.recorded(loaded.raw_sample(time_s))
    }

    /// One sample at `time_s`, and a save if it is time to.
    pub open spec fn committed(self, time_s: u32, len: Option<nat>) -> KeptState {
        let recorded = self.sampled(time_s, len);
        if recorded.save_due(time_s) {
            recorded.saved(time_s)
        } else {
            recorded
        }
    }
}

/// The data store of a platform.
pub struct SensorData<P: Platform> {
    battery_reading: Option<Ina228Reading>,
    ps_reading: Option<PsReading>,
    battery_updated: bool,
    ps_updated: bool,
    history: heapless::Vec<Sample, 204>,
    interval: u32,
    acc: SampleAccum,
    acc_count: u32,
    platform: P,
    loaded: bool,
    last_save_s: u32,
    buf: Vec<u8>,
}

impl<P: Platform> SensorData<P> {
    /// What the store knows.
    pub closed spec fn view(&self) -> KeptState {
        KeptState {
            battery: self.battery_reading,
            ps: self.ps_reading,
            battery_updated: self.battery_updated,
            ps_updated: self.ps_updated,
            samples: stored(self.history),
            interval: self.interval,
            acc: self.acc,
            acc_count: self.acc_count,
            loaded: self.loaded,
            last_save_s: self.last_save_s,
            buf: self.buf@,
        }
    }

    /// The board under the store.
    pub closed spec fn board(&self) -> P {
        self.platform
    }

    /// The store's invariant.
    pub open spec fn wf(&self) -> bool {
        self@.wf()
    }

    /// Nothing read, nothing recorded, nothing loaded.
    pub fn new(platform: P) -> (d: SensorData<P>)
        ensures
            d@ == KeptState::fresh(),
            d.board() == platform,
            d.wf(),
    {
        let mut buf: Vec<u8> = Vec::new();
        let mut i: usize = 0;
        while i < MAX_BLOB_SIZE
            invariant
                i <= MAX_BLOB_SIZE,
                buf@ =~= Seq::new(i as nat, |j: int| 0u8),
            decreases MAX_BLOB_SIZE - i,
        {
            buf.push(0);
            i = i + 1;
        }
        SensorData {
            battery_reading: None,
            ps_reading: None,
            battery_updated: false,
            ps_updated: false,
            history: store_new(),
            interval: 1,
            acc: SampleAccum::default(),
            acc_count: 0,
            platform,
            loaded: false,
            last_save_s: 0,
            buf,
        }
    }

    /// The board under the store.
    pub fn platform(&self) -> (p: &P)
        ensures
            *p == self.board(),
    {
        &self.platform
    }

    /// Publishes a battery reading, and records a sample if one is due. What the
    /// board says of the time, and what it has kept, decides the rest.
    pub fn update_battery(&mut self, bat: Ina228Reading)
        requires
            old(self).wf(),
        ensures
            final(self).wf(),
            ({
                let published = KeptState { battery: Some(bat), battery_updated: true, ..old(self)@ };
                &&& one_of(old(self).board(), published, final(self).board(), final(self)@)
                &&& asked_when_due(old(self).board(), published, final(self).board(), final(self)@)
            }),
    {
        self.battery_reading = Some(bat);
        self.battery_updated = true;
        self.try_commit();
    }

    /// Publishes a supply reading, and records a sample if one is due.
    pub fn update_ps(&mut self, ps: PsReading)
        requires
            old(self).wf(),
        ensures
            final(self).wf(),
            ({
                let published = KeptState { ps: Some(ps), ps_updated: true, ..old(self)@ };
                &&& one_of(old(self).board(), published, final(self).board(), final(self)@)
                &&& asked_when_due(old(self).board(), published, final(self).board(), final(self)@)
            }),
    {
        self.ps_reading = Some(ps);
        self.ps_updated = true;
        self.try_commit();
    }

    /// Latest battery reading, from the first one on.
    pub fn battery_reading(&self) -> (r: Option<Ina228Reading>)
        ensures
            r == self@.battery,
    {
        self.battery_reading
    }

    /// Latest supply reading, from the first one on.
    pub fn ps_reading(&self) -> (r: Option<PsReading>)
        ensures
            r == self@.ps,
    {
        self.ps_reading
    }

    /// Whether each side, battery first, has been updated since the last sample.
    pub fn updated(&self) -> (b: (bool, bool))
        ensures
            b == (self@.battery_updated, self@.ps_updated),
    {
        (self.battery_updated, self.ps_updated)
    }

    /// Whether what the board kept has been asked for.
    pub fn loaded(&self) -> (b: bool)
        ensures
            b == self@.loaded,
    {
        self.loaded
    }

    /// The buffer for the stored form.
    pub fn buf(&self) -> (b: &[u8])
        ensures
            b@ == self@.buf,
    {
        self.buf.as_slice()
    }

    /// Puts bytes at the start of the buffer, for `read` to restore from.
    pub fn put_blob(&mut self, bytes: &[u8])
        requires
            old(self).wf(),
            bytes@.len() <= MAX_BLOB_SIZE,
        ensures
            final(self).wf(),
            final(self).board() == old(self).board(),
            final(self)@ == (KeptState {
                buf: overwritten(old(self)@.buf, 0, bytes@),
                ..old(self)@
            }),
    {
        put_bytes(self.buf.as_mut_slice(), 0, bytes);
    }

    /// 1 when the latest supply reading shows measurable current, else 0.
    pub fn power_online(&self) -> (r: F32)
        ensures
            r == self@.online(),
    {
        if let Some(ps) = self.ps_reading {
            if ps.current.abs().gt(F32::from_bits(POWER_ONLINE_THRESHOLD)) {
                return F32::from_bits(ONE);
            }
        }
        F32::from_bits(0)
    }

    /// Records a sample when both sides have been updated since the last one and
    /// the clock is set. The readings themselves stay, so that live values can be
    /// read in between.
    fn try_commit(&mut self)
        requires
            old(self).wf(),
        ensures
            final(self).wf(),
            one_of(old(self).board(), old(self)@, final(self).board(), final(self)@),
            asked_when_due(old(self).board(), old(self)@, final(self).board(), final(self)@),
    {
        if !(self.battery_updated && self.ps_updated) {
            return;
        }
        let time_s = match self.platform.epoch_s() {
            Some(t) => t,
            None => return,
        };
        let ghost before = self@;
        let ghost board = self.platform;
        let len = if self.loaded {
            None
        } else {
            self.platform.load_blob(self.buf.as_mut_slice())
        };
        let ghost filled = self@;
        assert(filled == KeptState { buf: filled.buf, ..before });
        let save = self.commit_at(time_s, len);
        if let Some(n) = save {
            let form = slice_subrange(self.buf.as_slice(), 0, n);
            assert(form@ =~= self@.buf.take(n as int));
            self.platform.save_blob(form);
        }
        proof {
            assert(self.platform.calls() =~= board.calls() + asked(before, time_s, filled.buf, len));
            assert(recorded_at(board, before, self.platform, self@, time_s, filled.buf, len));
            board_is_asked_when_due(board, before, self.platform, self@);
        }
    }

    /// Records one sample at `time_s`. `len` is how many bytes the board has put
    /// into the buffer, where this is the first sample and it has kept any.
    /// Returns the length of the stored form to save, if it is time to.
    pub fn commit_at(&mut self, time_s: u32, len: Option<usize>) -> (save: Option<usize>)
        requires
            old(self).wf(),
            old(self)@.due(),
            len is Some ==> len->0 <= MAX_BLOB_SIZE,
        ensures
            final(self).wf(),
            final(self).board() == old(self).board(),
            final(self)@ == old(self)@.committed(time_s, as_nat(len)),
            save is Some == old(self)@.sampled(time_s, as_nat(len)).save_due(time_s),
            save is Some ==> {
                &&& save->0 <= MAX_BLOB_SIZE
                &&& final(self)@.buf.take(save->0 as int) == final(self)@.stored_form()
                &&& is_stored_form(final(self)@.buf.take(save->0 as int))
            },
    {
        self.battery_updated = false;
        self.ps_updated = false;
        if !self.loaded {
            self.loaded = true;
            if let Some(n) = len {
                let _ = self.read(n);
            }
            self.last_save_s = time_s;
        }
        let bat = self.battery_reading.unwrap();
        let ps = self.ps_reading.unwrap();
        let sample = Sample {
            time_s,
            voltage: bat.voltage,
            battery_current: bat.current,
            ps_current: ps.current,
            power_online: self.power_online(),
        };
        self.record(sample);
        if time_s.saturating_sub(self.last_save_s) >= SAVE_INTERVAL_S {
            self.last_save_s = time_s;
            let ghost before = self.buf@;
            let n = self.write();
            proof {
                encoded_length(FORMAT_VERSION, self.interval, stored(self.history));
                assert(self.buf@.take(n as int) =~= self@.stored_form());
            }
            Some(n)
        } else {
            None
        }
    }

    /// Adds a raw sample, and stores the average once `interval` of them are in.
    fn record(&mut self, sample: Sample)
        requires
            old(self).wf(),
        ensures
            final(self).wf(),
            final(self).board() == old(self).board(),
            final(self)@ == old(self)@.recorded(sample),
    {
        self.acc.add(&sample);
        self.acc_count = self.acc_count + 1;
        if self.acc_count >= self.interval {
            let averaged = self.acc.average(self.acc_count, sample.time_s);
            self.acc = SampleAccum::default();
            self.acc_count = 0;
            self.compact_if_needed();
            let _ = store_push(&mut self.history, averaged);
        }
    }

    /// Makes room for one more sample where there is none.
    pub fn compact_if_needed(&mut self)
        requires
            old(self).wf(),
        ensures
            final(self).wf(),
            final(self)@ == old(self)@.with_room(),
            final(self).board() == old(self).board(),
            final(self)@.samples.len() < HISTORY_CAPACITY,
    {
        let len = store_slice(&self.history).len();
        if len < HISTORY_CAPACITY {
            return;
        }
        if self.interval >= MAX_INTERVAL {
            let _ = store_remove(&mut self.history, 0);
            assert(self@.samples =~= old(self)@.samples.drop_first());
            return;
        }
        let ghost before = stored(self.history);
        let half = len / 2;
        let two = F32::from_bits(TWO);
        let mut i: usize = 0;
        while i < half
            invariant
                i <= half,
                half == before.len() / 2,
                two == number(TWO),
                stored(self.history).len() == before.len(),
                before.len() <= 204,
                forall|j: int|
                    0 <= j < i ==> stored(self.history)[j] == #[trigger] pairs_merged(before)[j],
                forall|j: int|
                    2 * i <= j < before.len() ==> (#[trigger] stored(self.history)[j])
                        == before[j],
                self@ == (KeptState { samples: stored(self.history), ..old(self)@ }),
                self.platform == old(self).platform,
            decreases half - i,
        {
            let all = store_slice(&self.history);
            let a = all[2 * i];
            let b = all[2 * i + 1];
            let s = Sample {
                time_s: b.time_s,
                voltage: a.voltage.add(b.voltage).div(two),
                battery_current: a.battery_current.add(b.battery_current).div(two),
                ps_current: a.ps_current.add(b.ps_current).div(two),
                power_online: a.power_online.add(b.power_online).div(two),
            };
            store_set(&mut self.history, i, s);
            i = i + 1;
        }
        store_truncate(&mut self.history, half);
        assert(stored(self.history) =~= pairs_merged(before));
        self.interval = self.interval * 2;
    }

    /// The recorded samples, at most `HISTORY_CAPACITY` of them.
    pub fn history(&self) -> (s: &[Sample])
        ensures
            s@ == self@.samples,
            s@.len() <= HISTORY_CAPACITY,
    {
        store_slice(&self.history)
    }

    /// How many raw samples make one recorded sample.
    pub fn interval(&self) -> (n: u32)
        ensures
            n == self@.interval,
    {
        self.interval
    }

    /// Writes the stored form of the history over the start of the buffer, and
    /// returns its length.
    pub fn write(&mut self) -> (n: usize)
        requires
            old(self).wf(),
        ensures
            final(self).wf(),
            final(self).board() == old(self).board(),
            n == old(self)@.stored_form().len(),
            n <= MAX_BLOB_SIZE,
            final(self)@ == (KeptState {
                buf: overwritten(old(self)@.buf, 0, old(self)@.stored_form()),
                ..old(self)@
            }),
    {
        proof {
            encoded_length(FORMAT_VERSION, self.interval, stored(self.history));
        }
        let n = encode_into(
            FORMAT_VERSION,
            self.interval,
            store_slice(&self.history),
            self.buf.as_mut_slice(),
        );
        n
    }

    /// Restores the history from the first `len` bytes of the buffer. Returns
    /// `false` and changes nothing where they are not a stored form.
    pub fn read(&mut self, len: usize) -> (ok: bool)
        requires
            old(self).wf(),
            len <= MAX_BLOB_SIZE,
        ensures
            final(self).wf(),
            final(self).board() == old(self).board(),
            ok == decoded(FORMAT_VERSION, old(self)@.buf.take(len as int)) is Some,
            final(self)@ == old(self)@.read(len as nat),
    {
        let bytes = slice_subrange(self.buf.as_slice(), 0, len);
        match decode(FORMAT_VERSION, bytes) {
            None => false,
            Some((interval, samples)) => {
                store_clear(&mut self.history);
                let mut i: usize = 0;
                while i < samples.len()
                    invariant
                        i <= samples@.len() <= HISTORY_CAPACITY,
                        stored(self.history) =~= samples@.take(i as int),
                        self@ == (KeptState { samples: stored(self.history), ..old(self)@ }),
                        self.platform == old(self).platform,
                    decreases samples.len() - i,
                {
                    let _ = store_push(&mut self.history, samples[i]);
                    i = i + 1;
                }
                assert(stored(self.history) =~= samples@);
                self.interval = interval;
                self.acc = SampleAccum::default();
                self.acc_count = 0;
                true
            },
        }
    }
}

/// What the board is asked for by a sample at `time_s`: the first sample loads, and
/// where it is time to save, the board is handed the history as it is then. `buf` and
/// `len` are what the board left in the buffer and returned, where it was asked.
pub open spec fn asked(
    before: KeptState,
    time_s: u32,
    buf: Seq<u8>,
    len: Option<usize>,
) -> Seq<BoardCall> {
    let filled = KeptState { buf, ..before };
    let load = if before.loaded {
        Seq::empty()
    } else {
        seq![BoardCall::Load { handed: before.buf, len, left: buf }]
    };
    let save = if filled.sampled(time_s, as_nat(len)).save_due(time_s) {
        seq![BoardCall::Save { form: filled.committed(time_s, as_nat(len)).stored_form() }]
    } else {
        Seq::empty()
    };
    load + save
}

/// The store and its board went from `before` and `board` to `after` and `board_after`
/// by a sample at `time_s`, a time that the clock told. The board was asked for what
/// the sample needs, in order, and for nothing else.
pub open spec fn recorded_at<P: Platform>(
    board: P,
    before: KeptState,
    board_after: P,
    after: KeptState,
    time_s: u32,
    buf: Seq<u8>,
    len: Option<usize>,
) -> bool {
    &&& board.told_time(Some(time_s))
    &&& before.loaded ==> buf == before.buf && len is None
    &&& buf.len() == MAX_BLOB_SIZE
    &&& len is Some ==> len->0 <= MAX_BLOB_SIZE
    &&& after == KeptState { buf, ..before }.committed(time_s, as_nat(len))
    &&& board_after.calls() == board.calls() + asked(before, time_s, buf, len)
    &&& asked(before, time_s, buf, len).len() == 0 ==> board_after == board
}

/// What an update leads to, whatever the board answers. A sample that is not due
/// changes nothing and asks the board for nothing. One that is due is left for later
/// in the same way where the clock told no time, and else recorded at the time that it
/// told.
pub open spec fn one_of<P: Platform>(
    board: P,
    published: KeptState,
    board_after: P,
    after: KeptState,
) -> bool {
    if published.due() {
        ||| board.told_time(None) && after == published && board_after == board
        ||| exists|time_s: u32, buf: Seq<u8>, len: Option<usize>| #[trigger]
            recorded_at(board, published, board_after, after, time_s, buf, len)
    } else {
        after == published && board_after == board
    }
}

/// What an update asks the board for, and what it leaves alone. The readings stay as
/// they were published. Unless both sides were updated and the clock told a time, so
/// do the history and everything else, and the board is asked for nothing. Else the
/// board is asked to load exactly at the first sample, and handed the history exactly
/// where `SAVE_INTERVAL_S` have passed since the last save, or since the first sample
/// before any save.
pub open spec fn asked_when_due<P: Platform>(
    board: P,
    published: KeptState,
    board_after: P,
    after: KeptState,
) -> bool {
    &&& after.battery == published.battery
    &&& after.ps == published.ps
    &&& {
        ||| {
            &&& !published.due() || board.told_time(None)
            &&& after == published
            &&& board_after == board
        }
        ||| exists|time_s: u32, buf: Seq<u8>, len: Option<usize>|
            #![trigger asked(published, time_s, buf, len)]
            {
                &&& published.due()
                &&& board.told_time(Some(time_s))
                &&& !after.due()
                &&& after.loaded
                &&& if !published.loaded {
                    &&& board_after.calls() == board.calls().push(
                        BoardCall::Load { handed: published.buf, len, left: buf },
                    )
                    &&& after.last_save_s == time_s
                } else if time_s >= published.last_save_s + SAVE_INTERVAL_S {
                    &&& board_after.calls() == board.calls().push(
                        BoardCall::Save { form: after.stored_form() },
                    )
                    &&& after.last_save_s == time_s
                } else {
                    &&& board_after == board
                    &&& after.last_save_s == published.last_save_s
                }
            }
    }
}

/// Every update asks the board for what is due and nothing else: a load exactly at the
/// first sample, a save exactly where the interval has passed since the last save or
/// the first sample, and nothing at all where no sample is due or the clock tells no
/// time.
pub proof fn board_is_asked_when_due<P: Platform>(
    board: P,
    published: KeptState,
    board_after: P,
    after: KeptState,
)
    requires
        one_of(board, published, board_after, after),
    ensures
        asked_when_due(board, published, board_after, after),
{
    if !(after == published && board_after == board && (!published.due() || board.told_time(
        None,
    ))) {
        let (time_s, buf, len) = choose|time_s: u32, buf: Seq<u8>, len: Option<usize>| #[trigger]
            recorded_at(board, published, board_after, after, time_s, buf, len);
        let filled = KeptState { buf, ..published };
        let added = asked(published, time_s, buf, len);
        if !published.loaded {
            assert(board.calls() + added =~= board.calls().push(
                BoardCall::Load { handed: published.buf, len, left: buf },
            ));
        } else {
            assert(filled == published);
            if time_s >= published.last_save_s + SAVE_INTERVAL_S {
                assert(board.calls() + added =~= board.calls().push(
                    BoardCall::Save { form: after.stored_form() },
                ));
            }
        }
    }
}

/// What was saved comes back: a store that has not loaded yet, handed what was saved
/// at the start of its buffer, holds the history that was saved.
pub proof fn saved_history_is_loaded(s: KeptState, into: KeptState, time_s: u32)
    requires
        s.wf(),
        s.samples.len() > 0,
        into.wf(),
        !into.loaded,
        s.stored_form().len() <= into.buf.len(),
        into.buf.take(s.stored_form().len() as int) == s.stored_form(),
    ensures
        ({
            let after = into.with_loaded(time_s, Some(s.stored_form().len()));
            &&& after.samples == s.samples
            &&& after.interval == s.interval
            &&& after.acc_count == 0
            &&& after.loaded
            &&& after.last_save_s == time_s
            &&& after.wf()
        }),
{
    encoded_length(FORMAT_VERSION, s.interval, s.samples);
    let n = s.stored_form().len() as int;
    assert(into.buf.take(n) =~= s.stored_form() + Seq::<u8>::empty());
    crate::data::blob::stored_form_round_trips(
        FORMAT_VERSION,
        s.interval,
        s.samples,
        Seq::empty(),
    );
}

/// A save and the next one are at least `SAVE_INTERVAL_S` apart: until the clock has
/// moved that far past the last save, and when it was stepped back, the board is handed
/// nothing and the save timer keeps its start. From then on the board is handed the
/// history, once, and the timer starts again.
pub proof fn saves_are_spaced(s: KeptState, time_s: u32)
    requires
        s.wf(),
        s.due(),
        s.loaded,
    ensures
        ({
            let after = s.committed(time_s, None);
            if time_s < s.last_save_s + SAVE_INTERVAL_S {
                &&& asked(s, time_s, s.buf, None) == Seq::<BoardCall>::empty()
                &&& after.buf == s.buf
                &&& after.last_save_s == s.last_save_s
            } else {
                &&& asked(s, time_s, s.buf, None) == seq![
                    (BoardCall::Save { form: after.stored_form() }),
                ]
                &&& after.last_save_s == time_s
            }
        }),
{
    assert(KeptState { buf: s.buf, ..s } == s);
    assert(Seq::<BoardCall>::empty() + Seq::<BoardCall>::empty() =~= Seq::empty());
    let save = seq![BoardCall::Save { form: s.committed(time_s, None).stored_form() }];
    assert(Seq::<BoardCall>::empty() + save =~= save);
}

/// The save timer starts at the first sample: that one loads what was kept, and saves
/// nothing, whatever the clock says.
pub proof fn save_timer_starts_at_the_first_sample(
    s: KeptState,
    time_s: u32,
    buf: Seq<u8>,
    len: Option<usize>,
)
    requires
        s.wf(),
        s.due(),
        !s.loaded,
    ensures
        asked(s, time_s, buf, len) == seq![
            (BoardCall::Load { handed: s.buf, len, left: buf }),
        ],
        (KeptState { buf, ..s }).committed(time_s, as_nat(len)).last_save_s == time_s,
{
    let load = seq![BoardCall::Load { handed: s.buf, len, left: buf }];
    assert(load + Seq::<BoardCall>::empty() =~= load);
}

/// What the board kept is loaded once: after that, what it holds does not matter.
pub proof fn history_is_loaded_once(s: KeptState, time_s: u32, len: Option<nat>)
    ensures
        s.committed(time_s, len).loaded,
        s.loaded ==> s.committed(time_s, len) == s.committed(time_s, None),
{
}

/// How many of the calls are loads.
pub open spec fn loads(calls: Seq<BoardCall>) -> nat {
    calls.filter(|c: BoardCall| c is Load).len()
}

/// One update, of either side, took the store and its board from `before` and `board`
/// to `after` and `board_after`.
pub open spec fn one_update<P: Platform>(
    board: P,
    before: KeptState,
    board_after: P,
    after: KeptState,
) -> bool {
    ||| exists|bat: Ina228Reading|
        one_of(
            board,
            (KeptState { battery: Some(bat), battery_updated: true, ..before }),
            board_after,
            after,
        )
    ||| exists|ps: PsReading|
        one_of(
            board,
            (KeptState { ps: Some(ps), ps_updated: true, ..before }),
            board_after,
            after,
        )
}

/// `stores` and `boards` are those of a store through a run of updates.
pub open spec fn is_run<P: Platform>(boards: Seq<P>, stores: Seq<KeptState>) -> bool {
    &&& boards.len() == stores.len() > 0
    &&& forall|i: int|
        0 < i < stores.len() ==> one_update(
            boards[i - 1],
            stores[i - 1],
            boards[i],
            #[trigger] stores[i],
        )
}

/// One update asks the board to load where it makes the store a loaded one, and not
/// otherwise. Once loaded, a store stays so.
pub proof fn update_loads_at_the_first_sample<P: Platform>(
    board: P,
    before: KeptState,
    board_after: P,
    after: KeptState,
)
    requires
        one_update(board, before, board_after, after),
    ensures
        before.loaded ==> after.loaded,
        loads(board_after.calls()) == loads(board.calls()) + (if after.loaded && !before.loaded {
            1int
        } else {
            0int
        }),
{
    let published: KeptState = if exists|bat: Ina228Reading|
        one_of(
            board,
            (KeptState { battery: Some(bat), battery_updated: true, ..before }),
            board_after,
            after,
        ) {
        let bat = choose|bat: Ina228Reading|
            one_of(
                board,
                (KeptState { battery: Some(bat), battery_updated: true, ..before }),
                board_after,
                after,
            );
        KeptState { battery: Some(bat), battery_updated: true, ..before }
    } else {
        let ps = choose|ps: PsReading|
            one_of(
                board,
                (KeptState { ps: Some(ps), ps_updated: true, ..before }),
                board_after,
                after,
            );
        KeptState { ps: Some(ps), ps_updated: true, ..before }
    };
    if after != published || board_after != board {
        let (time_s, buf, len) = choose|time_s: u32, buf: Seq<u8>, len: Option<usize>| #[trigger]
            recorded_at(board, published, board_after, after, time_s, buf, len);
        let added = asked(published, time_s, buf, len);
        let is_load = |c: BoardCall| c is Load;
        Seq::filter_distributes_over_add(board.calls(), added, is_load);
        reveal_with_fuel(Seq::filter, 3);
    }
}

/// However long a store runs, it asks the board to load once, at its first sample, and
/// before that not at all.
pub proof fn run_loads_once<P: Platform>(boards: Seq<P>, stores: Seq<KeptState>)
    requires
        is_run(boards, stores),
    ensures
        stores[0].loaded ==> stores.last().loaded,
        loads(boards.last().calls()) == loads(boards[0].calls()) + (if stores.last().loaded
            && !stores[0].loaded {
            1int
        } else {
            0int
        }),
    decreases stores.len(),
{
    let n = stores.len() as int;
    if n > 1 {
        let fewer_boards = boards.take(n - 1);
        let fewer_stores = stores.take(n - 1);
        assert forall|i: int| 0 < i < fewer_stores.len() implies one_update(
            fewer_boards[i - 1],
            fewer_stores[i - 1],
            fewer_boards[i],
            #[trigger] fewer_stores[i],
        ) by {
            assert(stores[i] == fewer_stores[i]);
        }
        run_loads_once(fewer_boards, fewer_stores);
        assert(stores[n - 1] == stores.last());
        update_loads_at_the_first_sample(
            boards[n - 2],
            stores[n - 2],
            boards[n - 1],
            stores[n - 1],
        );
    }
}

/// At one raw sample a second, a full history at the widest interval reaches back 58
/// hours.
pub proof fn full_history_covers_two_days()
    ensures
        HISTORY_CAPACITY * MAX_INTERVAL >= 58 * 3600,
{
}

/// A pair of updates makes one sample: after it, neither side alone makes another.
pub proof fn one_sample_per_pair_of_updates(
    s: KeptState,
    time_s: u32,
    len: Option<nat>,
    bat: Ina228Reading,
    ps: PsReading,
)
    requires
        s.wf(),
        s.due(),
    ensures
        !s.committed(time_s, len).due(),
        !(KeptState {
            battery: Some(bat),
            battery_updated: true,
            ..s.committed(time_s, len)
        }).due(),
        !(KeptState { ps: Some(ps), ps_updated: true, ..s.committed(time_s, len) }).due(),
{
}

} // verus!
