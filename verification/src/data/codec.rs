//! The stored form of a history as a fresh byte vector, in its sixth version.

use crate::data::blob::{decode, decoded, encode, encoded};
use crate::data::history::{History, HistoryState, MAX_INTERVAL};
use vstd::prelude::*;

verus! {

/// The version of this stored form.
pub const FORMAT_VERSION: u32 = 6;

/// The stored form of a history.
pub fn serialize(history: &History) -> (out: Vec<u8>)
    ensures
        out@ == encoded(FORMAT_VERSION, history@.interval, history@.samples),
{
    encode(FORMAT_VERSION, history.interval(), history.samples())
}

/// Restores a history. `None` where the bytes are malformed: another version, a
/// zero count or interval, samples cut short. Of more samples than fit, the newest
/// are kept.
pub fn deserialize(bytes: &[u8]) -> (r: Option<History>)
    ensures
        match r {
            Some(h) => decoded(FORMAT_VERSION, bytes@) is Some && h.wf() && h@
                == HistoryState::empty(MAX_INTERVAL).restored(
                (decoded(FORMAT_VERSION, bytes@)->0).0,
                (decoded(FORMAT_VERSION, bytes@)->0).1,
            ),
            None => decoded(FORMAT_VERSION, bytes@) is None,
        },
{
    match decode(FORMAT_VERSION, bytes) {
        Some((interval, samples)) => {
            let mut history = History::new();
            history.restore(interval, samples.as_slice());
            Some(history)
        },
        None => None,
    }
}

} // verus!
