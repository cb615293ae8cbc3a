//! What is recorded, in terms of what was read: which readings make a sample, what
//! samples average to, and where each stands in the stored form.

use crate::data::blob::{
    accepted_form_reads_its_words, holds_sample, stored_form_has_its_layout, word_at,
};
use crate::data::history::{
    halved, pair_mean, HistoryState, SampleAccum, HEADER_SIZE, HISTORY_CAPACITY,
};
use crate::data::persistent::{merged, pairs_merged, KeptState, POWER_ONLINE_THRESHOLD, TWO};
use crate::data::{
    FreshReadings, Ina228Reading, PsReading, Sample, StoreState, ONE,
    POWER_ONLINE_VOLTAGE_THRESHOLD,
};
use crate::float::laws::{
    decimal_is_nearest, exact_ratio_rounds_to_itself, is_decimal, negation_turns_the_sign,
    products_are_nearest,
};
use crate::float::order::{exact_value_is_nearest, plain};
use crate::float::rounding::{
    lemma_mag_monotone, lemma_mag_split, lemma_mag_value_of, lemma_round_mag, mag_value, round_mag,
    INFINITE_MAG,
};
use crate::float::{
    abs_int, arithmetic_commutes, lemma_packed, lemma_sum_rank, nearest_exists, number,
    order_is_by_value, order_is_total, sum_keeps_order, F32,
};
use crate::time::Duration;
use vstd::arithmetic::mul::*;
use vstd::arithmetic::power2::*;
use vstd::prelude::*;

verus! {

/// Two as a number.
proof fn lemma_two()
    ensures
        F32::of_integer(2) == number(TWO),
        plain(number(TWO)),
        number(TWO).magnitude() > 0,
        mag_value(number(TWO).magnitude()) == 2 * pow2(149),
        2 * pow2(149) > 0,
{
    let two = number(TWO);
    lemma_mag_value_of(0x80_0000, 127);
    lemma2_to64();
    lemma_pow2_adds(23, 127);
    lemma_pow2_adds(1, 149);
    lemma_pow2_pos(149);
    exact_value_is_nearest(two.magnitude());
    reveal(F32::of_integer);
}

/// The magnitude of twice the value.
proof fn lemma_double_mag(m: nat) -> (r: nat)
    requires
        m < INFINITE_MAG,
    ensures
        mag_value(r) == 2 * mag_value(m),
{
    let (q, j) = lemma_mag_split(m);
    if q < 0x80_0000 {
        lemma_mag_value_of(2 * q, 0);
        lemma2_to64();
        lemma_mul_basics(q as int);
        lemma_mul_basics(2 * q as int);
        2 * q
    } else {
        lemma_mag_value_of(q, j + 1);
        lemma_pow2_unfold(j + 1);
        assert(q * (2 * pow2(j)) == 2 * (q * pow2(j))) by (nonlinear_arith);
        ((j + 1) * 0x80_0000 + q) as nat
    }
}

/// A value of a magnitude beyond the largest number rounds to infinity.
proof fn lemma_beyond(v: nat, r: nat)
    requires
        r >= INFINITE_MAG,
        v == mag_value(r),
    ensures
        round_mag(v, 1) == INFINITE_MAG,
{
    let top = INFINITE_MAG as nat;
    lemma_mag_value_of(0x100_0000, 253);
    lemma2_to64();
    lemma_pow2_adds(24, 253);
    if top < r {
        lemma_mag_monotone(top, r);
    }
    lemma_mul_basics(pow2(277) as int);
    crate::float::rounding::lemma_nearest_infinite(v, 1);
    lemma_round_mag(top, v, 1);
}

proof fn lemma_double(x: F32) -> (r: nat)
    requires
        x.finite(),
        x.sum(x).finite(),
    ensures
        r < INFINITE_MAG,
        mag_value(r) == 2 * mag_value(x.magnitude()),
        x.sum(x).magnitude() == r,
        x.sum(x).negative() == x.negative(),
{
    let m = mag_value(x.magnitude());
    let r = lemma_double_mag(x.magnitude());
    lemma_sum_rank(x, x);
    assert(mag_value(0) == 0);
    if x.magnitude() > 0 {
        lemma_mag_monotone(0, x.magnitude());
    }
    if r < INFINITE_MAG {
        exact_value_is_nearest(r);
    } else {
        lemma_beyond(2 * m, r);
    }
    reveal(F32::sum);
    lemma_packed(x.negative(), 0);
    nearest_exists(2 * m, 1);
    lemma_packed(x.negative(), round_mag(2 * m, 1));
    if x.magnitude() == 0 {
        assert(r == 0) by {
            if r > 0 {
                lemma_mag_monotone(0, r);
            }
        }
    }
    r
}

/// Twice a number whose double is finite is exact, and half of that the number.
pub proof fn doubling_is_exact(x: F32)
    requires
        x.finite(),
        x.sum(x).finite(),
    ensures
        x.sum(x).scaled() == 2 * x.scaled(),
        x.sum(x).quotient(F32::of_integer(2)) == x,
        x.sum(x).negative() == x.negative(),
{
    lemma_two();
    let two = number(TWO);
    let m = mag_value(x.magnitude());
    let u = pow2(149);
    let r = lemma_double(x);
    let s = x.sum(x);
    products_are_nearest(s, two);
    assert((2 * m) * u == m * (2 * u)) by (nonlinear_arith);
    exact_ratio_rounds_to_itself((2 * m) * u, 2 * u, x.magnitude());
    lemma_round_mag(s.quotient(two).magnitude(), (2 * m) * u, 2 * u);
    assert(s.quotient(two).negative() == x.negative());
}

/// What two values average to: half of their rounded sum.
pub open spec fn half_of_sum(x: F32, y: F32) -> F32 {
    x.sum(y).quotient(F32::of_integer(2))
}

/// Halving keeps the order of finite numbers.
proof fn lemma_half_keeps_order(v: F32, w: F32)
    requires
        v.finite(),
        w.finite(),
        v.at_most(w),
    ensures
        v.quotient(F32::of_integer(2)).at_most(w.quotient(F32::of_integer(2))),
{
    crate::battery_laws::lemma_per_cell(2, v, w);
}

/// The average of two values lies between them, and is the value itself where the two
/// are the same; so the sign of a current is never turned.
pub proof fn average_lies_between(x: F32, y: F32)
    requires
        x.finite(),
        y.finite(),
        x.sum(x).finite(),
        y.sum(y).finite(),
        x.at_most(y),
    ensures
        x.at_most(half_of_sum(x, y)),
        half_of_sum(x, y).at_most(y),
        half_of_sum(x, x) == x,
{
    doubling_is_exact(x);
    doubling_is_exact(y);
    arithmetic_commutes(x, y);
    sum_keeps_order(x, y, x);
    sum_keeps_order(x, y, y);
    assert(x.sum(y).finite()) by {
        reveal(F32::at_most);
    }
    lemma_half_keeps_order(x.sum(x), x.sum(y));
    lemma_half_keeps_order(x.sum(y), y.sum(y));
}

/// Adding to nothing changes no value.
proof fn lemma_zero_plus(x: F32)
    requires
        x.finite(),
    ensures
        number(0).sum(x).scaled() == x.scaled(),
        number(0).sum(x).finite(),
        x.magnitude() > 0 ==> number(0).sum(x) == x,
{
    lemma_sum_rank(number(0), x);
    assert(mag_value(0) == 0);
    exact_value_is_nearest(x.magnitude());
    if x.magnitude() > 0 {
        lemma_mag_monotone(0, x.magnitude());
    }
    reveal(F32::sum);
    lemma_packed(x.scaled() < 0, x.magnitude());
    lemma_packed(false, 0);
}

/// The same value by another sign of zero has the same sums and halves.
proof fn lemma_pair(x: F32, y: F32)
    requires
        x.finite(),
        y.finite(),
        x.sum(y).finite(),
    ensures
        number(0).sum(x).sum(y).quotient(F32::of_integer(2)).same_value(half_of_sum(x, y)),
{
    let z = number(0).sum(x);
    lemma_zero_plus(x);
    lemma_sum_rank(z, y);
    lemma_sum_rank(x, y);
    let a = z.sum(y);
    let b = x.sum(y);
    assert(a.rank() == b.rank());
    assert(a.magnitude() == b.magnitude());
    order_is_by_value(a, b);
    assert(a.at_most(b) && b.at_most(a)) by {
        reveal(F32::at_most);
    }
    lemma_half_keeps_order(a, b);
    lemma_half_keeps_order(b, a);
    reveal(F32::at_most);
    reveal(F32::same_value);
}

/// The four values of a sample are finite, and so are their doubles.
pub open spec fn moderate(s: Sample) -> bool {
    &&& s.voltage.finite() && s.voltage.sum(s.voltage).finite()
    &&& s.battery_current.finite() && s.battery_current.sum(s.battery_current).finite()
    &&& s.ps_current.finite() && s.ps_current.sum(s.ps_current).finite()
    &&& s.power_online.finite() && s.power_online.sum(s.power_online).finite()
}

/// `m` stands for `a` and `b`: it has the time of the later, and in each value half of
/// their sum, signs kept.
pub open spec fn stands_for(m: Sample, a: Sample, b: Sample) -> bool {
    &&& m.time_s == b.time_s
    &&& m.voltage.same_value(half_of_sum(a.voltage, b.voltage))
    &&& m.battery_current.same_value(half_of_sum(a.battery_current, b.battery_current))
    &&& m.ps_current.same_value(half_of_sum(a.ps_current, b.ps_current))
    &&& m.power_online.same_value(half_of_sum(a.power_online, b.power_online))
}

proof fn lemma_sum_of_moderate(x: F32, y: F32)
    requires
        x.finite(),
        y.finite(),
        x.sum(x).finite(),
        y.sum(y).finite(),
    ensures
        x.sum(y).finite(),
{
    order_is_total(x, y);
    arithmetic_commutes(x, y);
    if x.at_most(y) {
        sum_keeps_order(x, y, x);
        sum_keeps_order(x, y, y);
    } else {
        assert(y.at_most(x)) by {
            reveal(F32::at_most);
            reveal(F32::below);
        }
        sum_keeps_order(y, x, x);
        sum_keeps_order(y, x, y);
    }
    reveal(F32::at_most);
}

/// Merging two samples, in either store, gives a sample that stands for both.
pub proof fn merged_pair_stands_for_both(a: Sample, b: Sample)
    requires
        moderate(a),
        moderate(b),
    ensures
        stands_for(pair_mean(a, b), a, b),
        stands_for(merged(a, b), a, b),
{
    lemma_sum_of_moderate(a.voltage, b.voltage);
    lemma_sum_of_moderate(a.battery_current, b.battery_current);
    lemma_sum_of_moderate(a.ps_current, b.ps_current);
    lemma_sum_of_moderate(a.power_online, b.power_online);
    lemma_pair(a.voltage, b.voltage);
    lemma_pair(a.battery_current, b.battery_current);
    lemma_pair(a.ps_current, b.ps_current);
    lemma_pair(a.power_online, b.power_online);
    lemma_two();
    assert(merged(a, b).voltage == half_of_sum(a.voltage, b.voltage));
    lemma_same_as_itself(a.voltage.sum(b.voltage));
    lemma_same_as_itself(a.battery_current.sum(b.battery_current));
    lemma_same_as_itself(a.ps_current.sum(b.ps_current));
    lemma_same_as_itself(a.power_online.sum(b.power_online));
}

proof fn lemma_same_as_itself(x: F32)
    requires
        x.finite(),
    ensures
        x.quotient(F32::of_integer(2)).same_value(x.quotient(F32::of_integer(2))),
{
    assert(x.at_most(x)) by {
        reveal(F32::at_most);
    }
    lemma_half_keeps_order(x, x);
    reveal(F32::at_most);
    reveal(F32::same_value);
}

/// A compacted history: half as many samples, each standing for the two it replaces, in
/// order. Two that read the same finite value are replaced by one that reads it too.
pub proof fn compaction_keeps_what_was_read(samples: Seq<Sample>, i: int)
    requires
        0 <= i < samples.len() / 2,
        moderate(samples[2 * i]),
        moderate(samples[2 * i + 1]),
    ensures
        halved(samples).len() == samples.len() / 2,
        stands_for(halved(samples)[i], samples[2 * i], samples[2 * i + 1]),
        samples[2 * i].battery_current == samples[2 * i + 1].battery_current
            ==> halved(samples)[i].battery_current.same_value(samples[2 * i].battery_current),
        samples[2 * i].voltage == samples[2 * i + 1].voltage ==> halved(
            samples,
        )[i].voltage.same_value(samples[2 * i].voltage),
        samples[2 * i].ps_current == samples[2 * i + 1].ps_current ==> halved(
            samples,
        )[i].ps_current.same_value(samples[2 * i].ps_current),
        samples[2 * i].power_online == samples[2 * i + 1].power_online ==> halved(
            samples,
        )[i].power_online.same_value(samples[2 * i].power_online),
        pairs_merged(samples).len() == samples.len() / 2,
        stands_for(pairs_merged(samples)[i], samples[2 * i], samples[2 * i + 1]),
{
    let a = samples[2 * i];
    let b = samples[2 * i + 1];
    merged_pair_stands_for_both(a, b);
    doubling_is_exact(a.battery_current);
    doubling_is_exact(a.voltage);
    doubling_is_exact(a.ps_current);
    doubling_is_exact(a.power_online);
}

/// Numbers added up from zero, in order.
pub open spec fn running_sum(xs: Seq<F32>) -> F32
    decreases xs.len(),
{
    if xs.len() == 0 {
        number(0)
    } else {
        running_sum(xs.drop_last()).sum(xs.last())
    }
}

/// The voltages of some samples.
pub open spec fn voltages(raws: Seq<Sample>) -> Seq<F32> {
    Seq::new(raws.len(), |i: int| raws[i].voltage)
}

/// Their battery currents.
pub open spec fn battery_currents(raws: Seq<Sample>) -> Seq<F32> {
    Seq::new(raws.len(), |i: int| raws[i].battery_current)
}

/// Their supply currents.
pub open spec fn ps_currents(raws: Seq<Sample>) -> Seq<F32> {
    Seq::new(raws.len(), |i: int| raws[i].ps_current)
}

/// Whether power was online in each.
pub open spec fn onlines(raws: Seq<Sample>) -> Seq<F32> {
    Seq::new(raws.len(), |i: int| raws[i].power_online)
}

/// `acc` holds the sums of `raws`, value by value.
pub open spec fn adds_up(acc: SampleAccum, raws: Seq<Sample>) -> bool {
    &&& acc.voltage == running_sum(voltages(raws))
    &&& acc.battery_current == running_sum(battery_currents(raws))
    &&& acc.ps_current == running_sum(ps_currents(raws))
    &&& acc.power_online == running_sum(onlines(raws))
}

/// `s` is the mean of `raws`, value by value, at the time of the last of them.
pub open spec fn is_mean_of(s: Sample, raws: Seq<Sample>) -> bool {
    let n = F32::of_integer(raws.len());
    &&& s.time_s == raws.last().time_s
    &&& s.voltage == running_sum(voltages(raws)).quotient(n)
    &&& s.battery_current == running_sum(battery_currents(raws)).quotient(n)
    &&& s.ps_current == running_sum(ps_currents(raws)).quotient(n)
    &&& s.power_online == running_sum(onlines(raws)).quotient(n)
}

proof fn lemma_adds_up(acc: SampleAccum, raws: Seq<Sample>, raw: Sample)
    requires
        adds_up(acc, raws),
    ensures
        adds_up(acc.plus(raw), raws.push(raw)),
{
    let more = raws.push(raw);
    assert(voltages(more).drop_last() =~= voltages(raws));
    assert(battery_currents(more).drop_last() =~= battery_currents(raws));
    assert(ps_currents(more).drop_last() =~= ps_currents(raws));
    assert(onlines(more).drop_last() =~= onlines(raws));
}

/// `after` is what `before` becomes by one sample more, `added`, where `cap` is the
/// interval from which the window slides: room is made by halving below the cap, and by
/// dropping the oldest at it.
pub open spec fn gains(
    before: Seq<Sample>,
    interval: u32,
    cap: u32,
    after: Seq<Sample>,
    interval_after: u32,
    added: Sample,
) -> bool {
    &&& after.len() > 0
    &&& after.last() == added
    &&& if before.len() < 204 {
        &&& after.len() == before.len() + 1
        &&& interval_after == interval
        &&& forall|i: int| 0 <= i < before.len() ==> #[trigger] after[i] == before[i]
    } else if interval < cap {
        &&& after.len() == 103
        &&& interval_after == 2 * interval
        &&& forall|i: int|
            0 <= i < 102 && moderate(before[2 * i]) && moderate(before[2 * i + 1]) ==> stands_for(
                #[trigger] after[i],
                before[2 * i],
                before[2 * i + 1],
            )
    } else {
        &&& after.len() == 204
        &&& interval_after == interval
        &&& forall|i: int| 0 <= i < 203 ==> #[trigger] after[i] == before[i + 1]
    }
}

/// Raw samples are averaged `interval` at a time: the history holds back until that many
/// are in, and then gains their mean, value by value, with nothing held back any more.
pub proof fn history_gains_the_mean(h: HistoryState, raws: Seq<Sample>, raw: Sample)
    requires
        h.wf(),
        raws.len() == h.acc_count,
        adds_up(h.acc, raws),
    ensures
        ({
            let t = h.committed(raw);
            if raws.len() + 1 < h.interval {
                &&& t.samples == h.samples
                &&& t.interval == h.interval
                &&& t.acc_count == raws.len() + 1
                &&& adds_up(t.acc, raws.push(raw))
            } else {
                &&& is_mean_of(t.samples.last(), raws.push(raw))
                &&& gains(
                    h.samples,
                    h.interval,
                    h.max_interval,
                    t.samples,
                    t.interval,
                    t.samples.last(),
                )
                &&& t.acc_count == 0
                &&& adds_up(t.acc, Seq::empty())
            }
        }),
{
    lemma_adds_up(h.acc, raws, raw);
    let t = h.committed(raw);
    let b = h.samples;
    if raws.len() + 1 >= h.interval && b.len() >= 204 && h.interval < h.max_interval {
        assert forall|i: int|
            0 <= i < 102 && moderate(b[2 * i]) && moderate(b[2 * i + 1]) implies stands_for(
            #[trigger] t.samples[i],
            b[2 * i],
            b[2 * i + 1],
        ) by {
            merged_pair_stands_for_both(b[2 * i], b[2 * i + 1]);
            assert(t.samples[i] == halved(b)[i]);
        }
    }
}

/// A restored or empty history has nothing held back.
pub proof fn nothing_is_held_back_at_first(h: HistoryState, cap: u32, interval: u32, samples: Seq<Sample>)
    ensures
        HistoryState::empty(cap).acc_count == 0,
        HistoryState::empty(cap).interval == 1,
        HistoryState::empty(cap).samples.len() == 0,
        adds_up(HistoryState::empty(cap).acc, Seq::empty()),
        h.restored(interval, samples).acc_count == 0,
        h.restored(interval, samples).interval == interval,
        h.restored(interval, samples).samples == samples,
        h.restored(interval, samples).max_interval == h.max_interval,
        adds_up(h.restored(interval, samples).acc, Seq::empty()),
{
}

/// The persistent store averages and makes room in the same way.
pub proof fn store_gains_the_mean(s: KeptState, raws: Seq<Sample>, raw: Sample)
    requires
        s.wf(),
        raws.len() == s.acc_count,
        adds_up(s.acc, raws),
    ensures
        ({
            let t = s.recorded(raw);
            &&& t.battery == s.battery && t.ps == s.ps
            &&& t.loaded == s.loaded && t.last_save_s == s.last_save_s && t.buf == s.buf
            &&& if raws.len() + 1 < s.interval {
                &&& t.samples == s.samples
                &&& t.interval == s.interval
                &&& t.acc_count == raws.len() + 1
                &&& adds_up(t.acc, raws.push(raw))
            } else {
                &&& is_mean_of(t.samples.last(), raws.push(raw))
                &&& gains(s.samples, s.interval, 1024, t.samples, t.interval, t.samples.last())
                &&& t.acc_count == 0
                &&& adds_up(t.acc, Seq::empty())
            }
        }),
{
    lemma_adds_up(s.acc, raws, raw);
    let t = s.recorded(raw);
    let b = s.samples;
    if raws.len() + 1 >= s.interval && b.len() >= 204 && s.interval < 1024 {
        assert forall|i: int|
            0 <= i < 102 && moderate(b[2 * i]) && moderate(b[2 * i + 1]) implies stands_for(
            #[trigger] t.samples[i],
            b[2 * i],
            b[2 * i + 1],
        ) by {
            merged_pair_stands_for_both(b[2 * i], b[2 * i + 1]);
            assert(t.samples[i] == pairs_merged(b)[i]);
        }
    }
}

/// A sample that is due is made of the latest readings: voltage and current of the
/// battery, current of the supply, and online exactly where that current, either way,
/// is above a tenth of an ampere. Both sides then wait for the next reading.
pub proof fn due_sample_is_of_the_latest_readings(s: KeptState, time_s: u32, len: Option<nat>)
    requires
        s.wf(),
        s.due(),
    ensures
        ({
            let raw = Sample {
                time_s,
                voltage: s.battery->0.voltage,
                battery_current: s.battery->0.current,
                ps_current: s.ps->0.current,
                power_online: s.online(),
            };
            let idle = KeptState { battery_updated: false, ps_updated: false, ..s };
            &&& s.sampled(time_s, len) == idle.with_loaded(time_s, len).recorded(raw)
            &&& !s.sampled(time_s, len).battery_updated
            &&& !s.sampled(time_s, len).ps_updated
        }),
        s.online() == (if number(POWER_ONLINE_THRESHOLD).below(s.ps->0.current.absolute()) {
            number(ONE)
        } else {
            number(0)
        }),
        s.ps->0.current.finite() ==> s.online() == (if abs_int(s.ps->0.current.scaled()) > number(
            POWER_ONLINE_THRESHOLD,
        ).scaled() {
            number(ONE)
        } else {
            number(0)
        }),
{
    let c = s.ps->0.current;
    if c.finite() {
        negation_turns_the_sign(c);
        order_is_by_value(number(POWER_ONLINE_THRESHOLD), c.absolute());
    }
}

/// A finite reading is read back at once, the other side untouched.
pub proof fn published_reading_is_read_back(r: FreshReadings, bat: Ina228Reading, ps: PsReading)
    ensures
        bat.voltage.finite() && bat.current.finite() && bat.power.finite() ==> {
            let t = r.with_battery(bat);
            &&& t.fresh_battery() == Some(bat)
            &&& t.fresh_ps() == r.fresh_ps()
            &&& t.battery_stale@ == 0
            &&& t.ps_stale == r.ps_stale
        },
        !(bat.voltage.finite() && bat.current.finite() && bat.power.finite()) ==> r.with_battery(
            bat,
        ) == r,
        ps.voltage.finite() && ps.current.finite() && ps.power.finite() && ps.v_set.finite()
            && ps.i_set.finite() ==> {
            let t = r.with_ps(ps);
            &&& t.fresh_ps() == Some(ps)
            &&& t.fresh_battery() == r.fresh_battery()
            &&& t.ps_stale@ == 0
            &&& t.battery_stale == r.battery_stale
        },
        !(ps.voltage.finite() && ps.current.finite() && ps.power.finite() && ps.v_set.finite()
            && ps.i_set.finite()) ==> r.with_ps(ps) == r,
{
}

/// Readings are told as they were published for five seconds, and no longer; ageing
/// changes nothing but the time.
pub proof fn readings_are_told_for_five_seconds(r: FreshReadings, dt: Duration)
    requires
        r.battery_stale@ + dt@ <= crate::time::MAX_NANOS,
        r.ps_stale@ + dt@ <= crate::time::MAX_NANOS,
    ensures
        r.aged(dt).latest_battery == r.latest_battery,
        r.aged(dt).latest_ps == r.latest_ps,
        r.aged(dt).battery_stale@ == r.battery_stale@ + dt@,
        r.aged(dt).ps_stale@ == r.ps_stale@ + dt@,
        r.fresh_battery() == (if r.battery_stale@ <= 5_000_000_000 {
            r.latest_battery
        } else {
            None
        }),
        r.fresh_ps() == (if r.ps_stale@ <= 5_000_000_000 {
            r.latest_ps
        } else {
            None
        }),
{
}

/// What a tick records: voltage and current of a fresh battery reading, the current of
/// a fresh supply reading, zeros for a stale side, and online exactly where the supply
/// shows more than two volts. Without a time, or with one that has not moved past the
/// newest sample, nothing is recorded.
pub proof fn tick_records_the_fresh_readings(s: StoreState, now_epoch: Option<u32>, dt: Duration)
    ensures
        ({
            let r = s.live.aged(dt);
            let bat = r.fresh_battery();
            let ps = r.fresh_ps();
            let t = s.ticked(now_epoch, dt);
            &&& t.live == r
            &&& if now_epoch is None || (s.history.samples.len() > 0 && now_epoch->0
                <= s.history.samples.last().time_s) {
                t.history == s.history
            } else {
                t.history == s.history.committed(
                    (Sample {
                        time_s: now_epoch->0,
                        voltage: if bat is Some {
                            bat->0.voltage
                        } else {
                            number(0)
                        },
                        battery_current: if bat is Some {
                            bat->0.current
                        } else {
                            number(0)
                        },
                        ps_current: if ps is Some {
                            ps->0.current
                        } else {
                            number(0)
                        },
                        power_online: r.online(),
                    }),
                )
            }
            &&& ps is None ==> r.online() == number(0)
            &&& ps is Some && ps->0.voltage.finite() ==> r.online() == (if ps->0.voltage.scaled()
                > 2 * pow2(149) {
                number(ONE)
            } else {
                number(0)
            })
        }),
{
    let r = s.live.aged(dt);
    if let Some(ps) = r.fresh_ps() {
        if ps.voltage.finite() {
            lemma_two();
            order_is_by_value(number(POWER_ONLINE_VOLTAGE_THRESHOLD), ps.voltage);
        }
    }
}

/// The sizes and spans of the stores: 204 samples of 20 bytes behind 12, the widest
/// interval, ten minutes between saves, and the versions of the stored form.
pub proof fn stores_have_their_sizes()
    ensures
        HISTORY_CAPACITY == 204,
        HEADER_SIZE == 12,
        crate::data::history::MAX_INTERVAL == 64,
        crate::data::history::FORMAT_VERSION == 7,
        crate::data::codec::FORMAT_VERSION == 6,
        crate::data::persistent::MAX_INTERVAL == 1024,
        crate::data::persistent::FORMAT_VERSION == 6,
        crate::data::persistent::SAVE_INTERVAL_S == 600,
        crate::data::persistent::MAX_BLOB_SIZE == 4096,
        crate::data::live::STALE_TICKS == 5,
        crate::data::STALE_WINDOW == 5,
        is_decimal(number(POWER_ONLINE_THRESHOLD), 1, 10),
        is_decimal(number(POWER_ONLINE_VOLTAGE_THRESHOLD), 2, 1),
        is_decimal(number(ONE), 1, 1),
{
    lemma2_to64();
    decimal_is_nearest(1, 10, 0xcccccd, 122, 0x800_0000);
    decimal_is_nearest(2, 1, 0x800000, 127, 0x40_0000);
    decimal_is_nearest(1, 1, 0x800000, 126, 0x80_0000);
}

/// What is saved is the history, word by word: the version, the interval, how many
/// samples, and each of them, oldest first.
pub proof fn saved_form_is_the_history(s: KeptState)
    requires
        s.wf(),
    ensures
        ({
            let form = s.stored_form();
            &&& form.len() == 12 + 20 * s.samples.len()
            &&& word_at(form, 0) == 6
            &&& word_at(form, 4) == s.interval
            &&& word_at(form, 8) == s.samples.len()
            &&& forall|i: int|
                0 <= i < s.samples.len() ==> holds_sample(
                    form,
                    12 + 20 * i,
                    #[trigger] s.samples[i],
                )
        }),
{
    stored_form_has_its_layout(crate::data::persistent::FORMAT_VERSION, s.interval, s.samples);
}

/// What the first sample makes of the bytes that the board gave back: a form of this
/// version with an interval and samples takes the history's place, its newest samples
/// where it has too many; anything else leaves the history alone. The readings stay.
pub proof fn first_sample_takes_over_what_was_kept(s: KeptState, time_s: u32, len: nat)
    requires
        s.wf(),
        !s.loaded,
        len <= s.buf.len(),
    ensures
        ({
            let t = s.with_loaded(time_s, Some(len));
            let b = s.buf.take(len as int);
            let accepted = len >= 12 && word_at(b, 0) == 6 && word_at(b, 4) > 0 && word_at(b, 8) > 0
                && len >= 12 + 20 * word_at(b, 8);
            let kept: int = if word_at(b, 8) > 204 {
                204
            } else {
                word_at(b, 8)
            };
            &&& t.battery == s.battery && t.ps == s.ps && t.buf == s.buf
            &&& t.battery_updated == s.battery_updated && t.ps_updated == s.ps_updated
            &&& t.loaded && t.last_save_s == time_s
            &&& if accepted {
                &&& t.interval == word_at(b, 4)
                &&& t.samples.len() == kept
                &&& forall|i: int|
                    0 <= i < kept ==> holds_sample(
                        b,
                        12 + 20 * (word_at(b, 8) - kept + i),
                        #[trigger] t.samples[i],
                    )
                &&& t.acc_count == 0 && adds_up(t.acc, Seq::empty())
            } else {
                &&& t.interval == s.interval && t.samples == s.samples
                &&& t.acc_count == s.acc_count && t.acc == s.acc
            }
        }),
        s.with_loaded(time_s, None) == (KeptState { loaded: true, last_save_s: time_s, ..s }),
{
    accepted_form_reads_its_words(
        crate::data::persistent::FORMAT_VERSION,
        s.buf.take(len as int),
    );
}

/// Merged values exactly, whatever they are: half of the sum, taken from zero in the one
/// store and directly in the other.
pub proof fn merged_values_are_half_of_the_sum(a: Sample, b: Sample)
    ensures
        ({
            let m = pair_mean(a, b);
            let z = number(0);
            &&& m.time_s == b.time_s
            &&& m.voltage == half_of_sum(z.sum(a.voltage), b.voltage)
            &&& m.battery_current == half_of_sum(z.sum(a.battery_current), b.battery_current)
            &&& m.ps_current == half_of_sum(z.sum(a.ps_current), b.ps_current)
            &&& m.power_online == half_of_sum(z.sum(a.power_online), b.power_online)
        }),
        ({
            let m = merged(a, b);
            &&& m.time_s == b.time_s
            &&& m.voltage == half_of_sum(a.voltage, b.voltage)
            &&& m.battery_current == half_of_sum(a.battery_current, b.battery_current)
            &&& m.ps_current == half_of_sum(a.ps_current, b.ps_current)
            &&& m.power_online == half_of_sum(a.power_online, b.power_online)
        }),
{
    lemma_two();
}

/// A save writes the stored form over the start of the buffer and starts the save timer
/// over; a sample that saves nothing leaves the buffer alone. Nothing else differs.
pub proof fn save_writes_the_form_alone(s: KeptState, time_s: u32, len: Option<nat>)
    requires
        s.wf(),
        s.due(),
        s.loaded || len is None || len->0 <= s.buf.len(),
    ensures
        ({
            let t = s.sampled(time_s, len);
            let u = s.committed(time_s, len);
            if s.loaded && time_s >= s.last_save_s + 600 {
                &&& u.last_save_s == time_s
                &&& u == (KeptState { last_save_s: time_s, buf: u.buf, ..t })
                &&& u.buf.len() == s.buf.len()
                &&& u.buf.take(t.stored_form().len() as int) == t.stored_form()
                &&& u.buf.skip(t.stored_form().len() as int) == s.buf.skip(
                    t.stored_form().len() as int,
                )
            } else {
                u == t && u.buf == s.buf
            }
        }),
{
    let t = s.sampled(time_s, len);
    let u = s.committed(time_s, len);
    if s.loaded && time_s >= s.last_save_s + 600 {
        crate::data::blob::encoded_length(6, t.interval, t.samples);
        assert(u.buf.take(t.stored_form().len() as int) =~= t.stored_form());
        assert(u.buf.skip(t.stored_form().len() as int) =~= s.buf.skip(
            t.stored_form().len() as int,
        ));
    }
}

} // verus!
