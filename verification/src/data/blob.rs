//! The stored form of a history, as bytes.

use crate::data::history::{HEADER_SIZE, HISTORY_CAPACITY, SAMPLE_SIZE};
use crate::wire::{
    le_bytes, le_value, lemma_value_in_prefix, lemma_value_in_suffix, overwritten, push_u32,
    put_u32, read_u32, word_round_trips,
};
use crate::data::Sample;
use crate::float::F32;
use vstd::prelude::*;

verus! {

/// The bytes of one sample.
pub open spec fn sample_bytes(s: Sample) -> Seq<u8> {
    le_bytes(s.time_s) + le_bytes(s.voltage.bits) + le_bytes(s.battery_current.bits) + le_bytes(
        s.ps_current.bits,
    ) + le_bytes(s.power_online.bits)
}

/// The bytes of several samples, one after the other.
pub open spec fn samples_bytes(samples: Seq<Sample>) -> Seq<u8>
    decreases samples.len(),
{
    if samples.len() == 0 {
        Seq::empty()
    } else {
        samples_bytes(samples.drop_last()) + sample_bytes(samples.last())
    }
}

/// Version, interval and count.
pub open spec fn header_bytes(version: u32, interval: u32, count: u32) -> Seq<u8> {
    le_bytes(version) + le_bytes(interval) + le_bytes(count)
}

/// The stored form.
pub open spec fn encoded(version: u32, interval: u32, samples: Seq<Sample>) -> Seq<u8> {
    header_bytes(version, interval, samples.len() as u32) + samples_bytes(samples)
}

/// The sample whose bytes stand at `pos`.
pub open spec fn sample_at(bytes: Seq<u8>, pos: int) -> Sample {
    Sample {
        time_s: le_value(bytes, pos),
        voltage: F32 { bits: le_value(bytes, pos + 4) },
        battery_current: F32 { bits: le_value(bytes, pos + 8) },
        ps_current: F32 { bits: le_value(bytes, pos + 12) },
        power_online: F32 { bits: le_value(bytes, pos + 16) },
    }
}

/// Interval and samples of a stored form: of the samples the newest that fit. There
/// are none where the header is cut short, the version another one, interval or
/// count zero, or the samples cut short.
pub open spec fn decoded(version: u32, bytes: Seq<u8>) -> Option<(u32, Seq<Sample>)> {
    let interval = le_value(bytes, 4);
    let count = le_value(bytes, 8);
    if bytes.len() < HEADER_SIZE || le_value(bytes, 0) != version || interval == 0 || count == 0
        || bytes.len() < HEADER_SIZE + count * SAMPLE_SIZE {
        None
    } else {
        let kept: nat = if count > HISTORY_CAPACITY {
            HISTORY_CAPACITY as nat
        } else {
            count as nat
        };
        let skip = count - kept;
        Some((interval, Seq::new(kept, |i: int| sample_at(bytes, HEADER_SIZE + (skip + i) * 20))))
    }
}

proof fn lemma_sample_bytes(s: Sample)
    ensures
        sample_bytes(s).len() == SAMPLE_SIZE,
        sample_at(sample_bytes(s), 0) == s,
{
    let a = le_bytes(s.time_s);
    let b = le_bytes(s.voltage.bits);
    let c = le_bytes(s.battery_current.bits);
    let d = le_bytes(s.ps_current.bits);
    let e = le_bytes(s.power_online.bits);
    word_round_trips(s.time_s);
    word_round_trips(s.voltage.bits);
    word_round_trips(s.battery_current.bits);
    word_round_trips(s.ps_current.bits);
    word_round_trips(s.power_online.bits);
    lemma_value_in_prefix(a, b, 0);
    lemma_value_in_prefix(a + b, c, 0);
    lemma_value_in_prefix(a + b + c, d, 0);
    lemma_value_in_prefix(a + b + c + d, e, 0);
    lemma_value_in_suffix(a, b, 0);
    lemma_value_in_prefix(a + b, c, 4);
    lemma_value_in_prefix(a + b + c, d, 4);
    lemma_value_in_prefix(a + b + c + d, e, 4);
    lemma_value_in_suffix(a + b, c, 0);
    lemma_value_in_prefix(a + b + c, d, 8);
    lemma_value_in_prefix(a + b + c + d, e, 8);
    lemma_value_in_suffix(a + b + c, d, 0);
    lemma_value_in_prefix(a + b + c + d, e, 12);
    lemma_value_in_suffix(a + b + c + d, e, 0);
}

/// Every sample stands at its place among the samples' bytes.
proof fn lemma_samples_bytes(samples: Seq<Sample>)
    ensures
        samples_bytes(samples).len() == samples.len() * 20,
        forall|i: int|
            0 <= i < samples.len() ==> sample_at(samples_bytes(samples), i * 20)
                == #[trigger] samples[i],
    decreases samples.len(),
{
    if samples.len() > 0 {
        let before = samples.drop_last();
        let last = samples.last();
        let a = samples_bytes(before);
        let b = sample_bytes(last);
        lemma_samples_bytes(before);
        lemma_sample_bytes(last);
        assert forall|i: int| 0 <= i < samples.len() implies sample_at(
            samples_bytes(samples),
            i * 20,
        ) == #[trigger] samples[i] by {
            if i < before.len() {
                assert(before[i] == samples[i]);
                lemma_value_in_prefix(a, b, i * 20);
                lemma_value_in_prefix(a, b, i * 20 + 4);
                lemma_value_in_prefix(a, b, i * 20 + 8);
                lemma_value_in_prefix(a, b, i * 20 + 12);
                lemma_value_in_prefix(a, b, i * 20 + 16);
            } else {
                assert(i * 20 == a.len());
                lemma_value_in_suffix(a, b, 0);
                lemma_value_in_suffix(a, b, 4);
                lemma_value_in_suffix(a, b, 8);
                lemma_value_in_suffix(a, b, 12);
                lemma_value_in_suffix(a, b, 16);
            }
        }
    }
}

proof fn lemma_header_bytes(version: u32, interval: u32, count: u32)
    ensures
        header_bytes(version, interval, count).len() == 12,
        le_value(header_bytes(version, interval, count), 0) == version,
        le_value(header_bytes(version, interval, count), 4) == interval,
        le_value(header_bytes(version, interval, count), 8) == count,
{
    let a = le_bytes(version);
    let b = le_bytes(interval);
    let c = le_bytes(count);
    word_round_trips(version);
    word_round_trips(interval);
    word_round_trips(count);
    lemma_value_in_prefix(a, b, 0);
    lemma_value_in_prefix(a + b, c, 0);
    lemma_value_in_suffix(a, b, 0);
    lemma_value_in_prefix(a + b, c, 4);
    lemma_value_in_suffix(a + b, c, 0);
}

/// How long a stored form is.
pub proof fn encoded_length(version: u32, interval: u32, samples: Seq<Sample>)
    ensures
        encoded(version, interval, samples).len() == HEADER_SIZE + samples.len() * SAMPLE_SIZE,
{
    lemma_samples_bytes(samples);
    lemma_header_bytes(version, interval, samples.len() as u32);
}

/// What was stored comes back, bytes that follow it notwithstanding: the same
/// interval and the same samples, as long as there are any. More samples than a
/// history holds come back as the newest of them.
pub proof fn stored_form_round_trips(
    version: u32,
    interval: u32,
    samples: Seq<Sample>,
    rest: Seq<u8>,
)
    requires
        interval > 0,
        0 < samples.len() <= u32::MAX,
    ensures
        decoded(version, encoded(version, interval, samples) + rest) == Some(
            (
                interval,
                if samples.len() > HISTORY_CAPACITY {
                    samples.skip(samples.len() - HISTORY_CAPACITY)
                } else {
                    samples
                },
            ),
        ),
{
    let head = header_bytes(version, interval, samples.len() as u32);
    let body = samples_bytes(samples);
    let bytes = head + body + rest;
    assert(bytes =~= encoded(version, interval, samples) + rest);
    lemma_header_bytes(version, interval, samples.len() as u32);
    lemma_samples_bytes(samples);
    lemma_value_in_prefix(head, body, 0);
    lemma_value_in_prefix(head, body, 4);
    lemma_value_in_prefix(head, body, 8);
    lemma_value_in_prefix(head + body, rest, 0);
    lemma_value_in_prefix(head + body, rest, 4);
    lemma_value_in_prefix(head + body, rest, 8);
    let kept: nat = if samples.len() > HISTORY_CAPACITY {
        HISTORY_CAPACITY as nat
    } else {
        samples.len()
    };
    let skip = samples.len() - kept;
    let want = samples.skip(skip);
    let got = (decoded(version, bytes)->0).1;
    assert forall|i: int| 0 <= i < kept implies got[i] == want[i] by {
        let k = skip + i;
        assert(sample_at(body, k * 20) == samples[k]);
        let p = k * 20;
        lemma_body_value(head, body, rest, p);
        lemma_body_value(head, body, rest, p + 4);
        lemma_body_value(head, body, rest, p + 8);
        lemma_body_value(head, body, rest, p + 12);
        lemma_body_value(head, body, rest, p + 16);
    }
    assert(got =~= want);
    assert(samples.skip(0) =~= samples);
}

/// Four bytes as a number, lowest first.
pub open spec fn word_at(bytes: Seq<u8>, pos: int) -> int {
    bytes[pos] + 256 * bytes[pos + 1] + 65536 * bytes[pos + 2] + 16777216 * bytes[pos + 3]
}

/// The five words at `pos` are the time and the four values of `s`, in this order.
pub open spec fn holds_sample(bytes: Seq<u8>, pos: int, s: Sample) -> bool {
    &&& word_at(bytes, pos) == s.time_s
    &&& word_at(bytes, pos + 4) == s.voltage.bits
    &&& word_at(bytes, pos + 8) == s.battery_current.bits
    &&& word_at(bytes, pos + 12) == s.ps_current.bits
    &&& word_at(bytes, pos + 16) == s.power_online.bits
}

/// Where things stand in the stored form: version, interval and count in the first three
/// words, then twenty bytes for each sample, oldest first.
pub proof fn stored_form_has_its_layout(version: u32, interval: u32, samples: Seq<Sample>)
    requires
        samples.len() <= u32::MAX,
    ensures
        ({
            let bytes = encoded(version, interval, samples);
            &&& bytes.len() == 12 + 20 * samples.len()
            &&& word_at(bytes, 0) == version
            &&& word_at(bytes, 4) == interval
            &&& word_at(bytes, 8) == samples.len()
            &&& forall|i: int|
                0 <= i < samples.len() ==> holds_sample(bytes, 12 + 20 * i, #[trigger] samples[i])
        }),
{
    let head = header_bytes(version, interval, samples.len() as u32);
    let body = samples_bytes(samples);
    let bytes = head + body;
    lemma_header_bytes(version, interval, samples.len() as u32);
    lemma_samples_bytes(samples);
    lemma_value_in_prefix(head, body, 0);
    lemma_value_in_prefix(head, body, 4);
    lemma_value_in_prefix(head, body, 8);
    assert forall|i: int| 0 <= i < samples.len() implies holds_sample(
        bytes,
        12 + 20 * i,
        #[trigger] samples[i],
    ) by {
        assert(sample_at(body, i * 20) == samples[i]);
        lemma_value_in_suffix(head, body, i * 20);
        lemma_value_in_suffix(head, body, i * 20 + 4);
        lemma_value_in_suffix(head, body, i * 20 + 8);
        lemma_value_in_suffix(head, body, i * 20 + 12);
        lemma_value_in_suffix(head, body, i * 20 + 16);
    }
}

/// What is accepted as a stored form, and what is read from it: the right version, an
/// interval, at least one sample, all of them there; of the samples the newest 204, each
/// from its own twenty bytes.
pub proof fn accepted_form_reads_its_words(version: u32, bytes: Seq<u8>)
    ensures
        decoded(version, bytes) is Some <==> {
            &&& bytes.len() >= 12
            &&& word_at(bytes, 0) == version
            &&& word_at(bytes, 4) > 0
            &&& word_at(bytes, 8) > 0
            &&& bytes.len() >= 12 + 20 * word_at(bytes, 8)
        },
        decoded(version, bytes) is Some ==> {
            let (interval, samples) = decoded(version, bytes)->0;
            let count = word_at(bytes, 8);
            &&& interval == word_at(bytes, 4)
            &&& samples.len() == (if count > 204 {
                204
            } else {
                count
            })
            &&& forall|i: int|
                0 <= i < samples.len() ==> holds_sample(
                    bytes,
                    12 + 20 * (count - samples.len() + i),
                    #[trigger] samples[i],
                )
        },
{
    if let Some((interval, samples)) = decoded(version, bytes) {
        let count = word_at(bytes, 8);
        assert forall|i: int| 0 <= i < samples.len() implies holds_sample(
            bytes,
            12 + 20 * (count - samples.len() + i),
            #[trigger] samples[i],
        ) by {
            assert(samples[i] == sample_at(bytes, 12 + (count - samples.len() + i) * 20));
        }
    }
}

/// An empty history leaves nothing to restore.
pub proof fn empty_form_is_refused(version: u32, interval: u32, rest: Seq<u8>)
    ensures
        decoded(version, encoded(version, interval, Seq::empty()) + rest) is None,
{
    let head = header_bytes(version, interval, 0);
    lemma_header_bytes(version, interval, 0);
    lemma_value_in_prefix(head, Seq::empty() + rest, 8);
    assert(encoded(version, interval, Seq::empty()) + rest =~= head + (Seq::empty() + rest));
}

/// A stored form of one version is refused by another.
pub proof fn other_version_is_refused(
    version: u32,
    other: u32,
    interval: u32,
    samples: Seq<Sample>,
    rest: Seq<u8>,
)
    requires
        version != other,
    ensures
        decoded(other, encoded(version, interval, samples) + rest) is None,
{
    let head = header_bytes(version, interval, samples.len() as u32);
    let body = samples_bytes(samples) + rest;
    lemma_header_bytes(version, interval, samples.len() as u32);
    lemma_value_in_prefix(head, body, 0);
    assert(encoded(version, interval, samples) + rest =~= head + body);
}

/// A stored form cut short is refused.
pub proof fn truncated_form_is_refused(
    version: u32,
    interval: u32,
    samples: Seq<Sample>,
    len: int,
)
    requires
        samples.len() <= u32::MAX,
        0 <= len < encoded(version, interval, samples).len(),
    ensures
        decoded(version, encoded(version, interval, samples).take(len)) is None,
{
    let head = header_bytes(version, interval, samples.len() as u32);
    let cut = encoded(version, interval, samples).take(len);
    lemma_header_bytes(version, interval, samples.len() as u32);
    lemma_samples_bytes(samples);
    if len >= 12 {
        let rest = cut.skip(12);
        assert(cut =~= head + rest);
        lemma_value_in_prefix(head, rest, 8);
    }
}

proof fn lemma_body_value(head: Seq<u8>, body: Seq<u8>, rest: Seq<u8>, p: int)
    requires
        0 <= p,
        p + 4 <= body.len(),
        head.len() == 12,
    ensures
        le_value(head + body + rest, 12 + p) == le_value(body, p),
{
    lemma_value_in_prefix(head + body, rest, 12 + p);
    lemma_value_in_suffix(head, body, p);
}

/// Reads the sample at `pos`.
pub(crate) fn read_sample(buf: &[u8], pos: usize) -> (s: Sample)
    requires
        pos + 20 <= buf@.len(),
    ensures
        s == sample_at(buf@, pos as int),
{
    assert(buf.len() == buf@.len());
    Sample {
        time_s: read_u32(buf, pos),
        voltage: F32::from_bits(read_u32(buf, pos + 4)),
        battery_current: F32::from_bits(read_u32(buf, pos + 8)),
        ps_current: F32::from_bits(read_u32(buf, pos + 12)),
        power_online: F32::from_bits(read_u32(buf, pos + 16)),
    }
}

/// Appends the bytes of a sample.
pub(crate) fn push_sample(out: &mut Vec<u8>, s: &Sample)
    ensures
        final(out)@ == old(out)@ + sample_bytes(*s),
{
    let ghost before = out@;
    push_u32(out, s.time_s);
    push_u32(out, s.voltage.to_bits());
    push_u32(out, s.battery_current.to_bits());
    push_u32(out, s.ps_current.to_bits());
    push_u32(out, s.power_online.to_bits());
    assert(out@ =~= before + sample_bytes(*s));
}

/// Writing on behind what was written.
proof fn lemma_overwrite_further(before: Seq<u8>, pos: int, a: Seq<u8>, b: Seq<u8>)
    requires
        0 <= pos,
        pos + a.len() + b.len() <= before.len(),
    ensures
        overwritten(overwritten(before, pos, a), pos + a.len(), b) == overwritten(
            before,
            pos,
            a + b,
        ),
        overwritten(before, pos, a).len() == before.len(),
{
    assert(overwritten(overwritten(before, pos, a), pos + a.len(), b) =~= overwritten(
        before,
        pos,
        a + b,
    ));
}

/// Writes the bytes of a sample at `pos`.
pub(crate) fn put_sample(out: &mut [u8], pos: usize, s: &Sample)
    requires
        pos + 20 <= old(out)@.len(),
    ensures
        final(out)@ == overwritten(old(out)@, pos as int, sample_bytes(*s)),
        final(out)@.len() == old(out)@.len(),
{
    let _n: usize = out.len();
    proof {
        let a = le_bytes(s.time_s);
        let b = le_bytes(s.voltage.bits);
        let c = le_bytes(s.battery_current.bits);
        let d = le_bytes(s.ps_current.bits);
        let e = le_bytes(s.power_online.bits);
        lemma_overwrite_further(out@, pos as int, a, b);
        lemma_overwrite_further(out@, pos as int, a + b, c);
        lemma_overwrite_further(out@, pos as int, a + b + c, d);
        lemma_overwrite_further(out@, pos as int, a + b + c + d, e);
    }
    put_u32(out, pos, s.time_s);
    put_u32(out, pos + 4, s.voltage.to_bits());
    put_u32(out, pos + 8, s.battery_current.to_bits());
    put_u32(out, pos + 12, s.ps_current.to_bits());
    put_u32(out, pos + 16, s.power_online.to_bits());
}

/// Writes version, interval and count at the start.
pub(crate) fn put_header(out: &mut [u8], version: u32, interval: u32, count: u32)
    requires
        12 <= old(out)@.len(),
    ensures
        final(out)@ == overwritten(old(out)@, 0, header_bytes(version, interval, count)),
        final(out)@.len() == old(out)@.len(),
{
    proof {
        let a = le_bytes(version);
        let b = le_bytes(interval);
        let c = le_bytes(count);
        lemma_overwrite_further(out@, 0, a, b);
        lemma_overwrite_further(out@, 0, a + b, c);
    }
    put_u32(out, 0, version);
    put_u32(out, 4, interval);
    put_u32(out, 8, count);
}

/// The stored form of an interval and samples.
pub(crate) fn encode(version: u32, interval: u32, samples: &[Sample]) -> (out: Vec<u8>)
    requires
        samples@.len() <= HISTORY_CAPACITY,
    ensures
        out@ == encoded(version, interval, samples@),
{
    let mut out: Vec<u8> = Vec::new();
    push_u32(&mut out, version);
    push_u32(&mut out, interval);
    push_u32(&mut out, samples.len() as u32);
    let ghost head = header_bytes(version, interval, samples@.len() as u32);
    assert(out@ =~= head);
    let mut i: usize = 0;
    assert(samples@.take(0) =~= Seq::<Sample>::empty());
    assert(out@ =~= head + samples_bytes(samples@.take(0)));
    while i < samples.len()
        invariant
            i <= samples@.len(),
            out@ == head + samples_bytes(samples@.take(i as int)),
        decreases samples.len() - i,
    {
        push_sample(&mut out, &samples[i]);
        proof {
            let more = samples@.take(i + 1);
            assert(more.drop_last() =~= samples@.take(i as int));
            assert(more.last() == samples@[i as int]);
            assert(out@ =~= head + samples_bytes(more));
        }
        i = i + 1;
    }
    assert(samples@.take(samples@.len() as int) =~= samples@);
    out
}

/// Writes the stored form of an interval and samples over the start of `out`, and
/// returns its length.
pub(crate) fn encode_into(version: u32, interval: u32, samples: &[Sample], out: &mut [u8]) -> (n:
    usize)
    requires
        samples@.len() <= HISTORY_CAPACITY,
        old(out)@.len() >= HEADER_SIZE + samples@.len() * SAMPLE_SIZE,
    ensures
        n == HEADER_SIZE + samples@.len() * SAMPLE_SIZE,
        final(out)@ == overwritten(old(out)@, 0, encoded(version, interval, samples@)),
{
    let total: usize = HEADER_SIZE + samples.len() * SAMPLE_SIZE;
    let ghost before = out@;
    let ghost head = header_bytes(version, interval, samples@.len() as u32);
    proof {
        lemma_header_bytes(version, interval, samples@.len() as u32);
        lemma_samples_bytes(samples@);
    }
    put_header(out, version, interval, samples.len() as u32);
    let mut o: usize = HEADER_SIZE;
    let mut i: usize = 0;
    proof {
        assert(samples@.take(0) =~= Seq::<Sample>::empty());
        assert(head + samples_bytes(samples@.take(0)) =~= head);
    }
    while i < samples.len()
        invariant
            i <= samples@.len() <= HISTORY_CAPACITY,
            o == HEADER_SIZE + i * SAMPLE_SIZE,
            out@.len() == before.len(),
            before.len() >= HEADER_SIZE + samples@.len() * SAMPLE_SIZE,
            head.len() == 12,
            out@ == overwritten(before, 0, head + samples_bytes(samples@.take(i as int))),
        decreases samples.len() - i,
    {
        let ghost done = head + samples_bytes(samples@.take(i as int));
        proof {
            lemma_samples_bytes(samples@.take(i as int));
            lemma_sample_bytes(samples@[i as int]);
            assert(done.len() == o);
        }
        put_sample(out, o, &samples[i]);
        proof {
            let more = samples@.take(i + 1);
            let b = sample_bytes(samples@[i as int]);
            assert(more.drop_last() =~= samples@.take(i as int));
            assert(more.last() == samples@[i as int]);
            assert(head + samples_bytes(more) =~= done + b);
            lemma_overwrite_further(before, 0, done, b);
        }
        o = o + SAMPLE_SIZE;
        i = i + 1;
    }
    assert(samples@.take(samples@.len() as int) =~= samples@);
    total
}

/// Interval and samples of a stored form, where it is one of this version.
pub(crate) fn decode(version: u32, bytes: &[u8]) -> (r: Option<(u32, Vec<Sample>)>)
    ensures
        match r {
            Some((interval, samples)) => decoded(version, bytes@) == Some((interval, samples@))
                && interval > 0 && 0 < samples@.len() <= HISTORY_CAPACITY,
            None => decoded(version, bytes@) is None,
        },
{
    if bytes.len() < HEADER_SIZE {
        return None;
    }
    if read_u32(bytes, 0) != version {
        return None;
    }
    let interval = read_u32(bytes, 4);
    let count = read_u32(bytes, 8);
    let needed: u64 = HEADER_SIZE as u64 + count as u64 * SAMPLE_SIZE as u64;
    if interval == 0 || count == 0 || (bytes.len() as u64) < needed {
        return None;
    }
    let skip: u32 = if count as u64 > HISTORY_CAPACITY as u64 {
        count - HISTORY_CAPACITY as u32
    } else {
        0
    };
    let ghost want = (decoded(version, bytes@)->0).1;
    let mut samples: Vec<Sample> = Vec::new();
    let mut i: u32 = skip;
    let mut pos: usize = HEADER_SIZE + skip as usize * SAMPLE_SIZE;
    while i < count
        invariant
            skip <= i <= count,
            bytes.len() == bytes@.len(),
            pos == HEADER_SIZE + i * SAMPLE_SIZE,
            bytes@.len() >= HEADER_SIZE + count * SAMPLE_SIZE,
            samples@.len() == i - skip,
            want.len() == count - skip,
            forall|j: int|
                0 <= j < want.len() ==> (#[trigger] want[j]) == sample_at(
                    bytes@,
                    HEADER_SIZE + (skip + j) * 20,
                ),
            forall|j: int| 0 <= j < samples@.len() ==> (#[trigger] samples@[j]) == want[j],
        decreases count - i,
    {
        samples.push(read_sample(bytes, pos));
        i = i + 1;
        pos = pos + SAMPLE_SIZE;
    }
    assert(samples@ =~= want);
    Some((interval, samples))
}

} // verus!
