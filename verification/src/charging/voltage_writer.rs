//! Sequencing of voltage writes: the safe step down, and every partial failure it
//! has to survive.

use crate::charging::action::VoltageTicket;
use crate::error_log::XyError;
use crate::float::F32;
use vstd::prelude::*;

verus! {

/// A write to the buck, and whether it succeeded.
pub ghost enum DeviceWrite {
    Voltage { volts: F32, ok: bool },
    Output { on: bool, ok: bool },
}

/// The two writes of the buck that the safe step down needs. Whoever drives the
/// bus implements it.
pub trait VoltageWriter {
    /// The error of a bus transaction. Only its presence matters here.
    type BusError;

    /// Every write so far, in order. A driver that is verified says what it has
    /// written; one that is not has nothing to say.
    closed spec fn writes(&self) -> Seq<DeviceWrite> {
        Seq::empty()
    }

    /// Writes the voltage setpoint.
    fn set_voltage(&mut self, volts: F32) -> (r: Result<(), Self::BusError>)
        ensures
            final(self).writes() == old(self).writes().push(
                (DeviceWrite::Voltage { volts, ok: r is Ok }),
            ),
    ;

    /// Switches the output on or off.
    fn set_output(&mut self, on: bool) -> (r: Result<(), Self::BusError>)
        ensures
            final(self).writes() == old(self).writes().push(
                (DeviceWrite::Output { on, ok: r is Ok }),
            ),
    ;
}

/// Whether the voltage got onto the device, and so whether the ticket is to be
/// committed.
#[derive(Copy, Clone, Debug, PartialEq, Eq, Structural)]
pub enum VoltageWriteOutcome {
    /// The voltage is on the device. This covers a step down whose re-enable
    /// failed: the setpoint did change, and the next tick finds the output off.
    Committed,
    /// The voltage was not written: drop the ticket, and the next tick asks again.
    Retry,
}

/// What a live write does: the voltage alone.
pub open spec fn live_write(
    target: F32,
    w: Seq<DeviceWrite>,
    errors: Seq<XyError>,
    outcome: VoltageWriteOutcome,
) -> bool {
    exists|ok: bool|
        {
            &&& w == seq![DeviceWrite::Voltage { volts: target, ok }]
            &&& errors == (if ok {
                seq![]
            } else {
                seq![XyError::SetVoltage]
            })
            &&& outcome == (if ok {
                VoltageWriteOutcome::Committed
            } else {
                VoltageWriteOutcome::Retry
            })
        }
}

/// What a step down does, by how its writes went: off, voltage, on. Nothing
/// follows a failed disable. A failed voltage write is followed by an attempt to
/// restore the output. A failed re-enable is tried once more.
pub open spec fn step_down(
    target: F32,
    w: Seq<DeviceWrite>,
    errors: Seq<XyError>,
    outcome: VoltageWriteOutcome,
) -> bool {
    let off = |ok: bool| DeviceWrite::Output { on: false, ok };
    let on = |ok: bool| DeviceWrite::Output { on: true, ok };
    let volts = |ok: bool| DeviceWrite::Voltage { volts: target, ok };
    ||| w == seq![off(false)] && errors == seq![XyError::SetOutput] && outcome
        == VoltageWriteOutcome::Retry
    ||| w == seq![off(true), volts(false), on(true)] && errors == seq![XyError::SetVoltage]
        && outcome == VoltageWriteOutcome::Retry
    ||| w == seq![off(true), volts(false), on(false)] && errors == seq![
        XyError::SetVoltage,
        XyError::SetOutput,
    ] && outcome == VoltageWriteOutcome::Retry
    ||| w == seq![off(true), volts(true), on(true)] && errors == Seq::<XyError>::empty()
        && outcome == VoltageWriteOutcome::Committed
    ||| w == seq![off(true), volts(true), on(false), on(true)] && errors == Seq::<
        XyError,
    >::empty() && outcome == VoltageWriteOutcome::Committed
    ||| w == seq![off(true), volts(true), on(false), on(false)] && errors == seq![
        XyError::SetOutput,
    ] && outcome == VoltageWriteOutcome::Committed
}

/// The quiet window was called for on a device whose writes so far are `writes`.
pub open spec fn settled_behind<W: VoltageWriter, S: FnOnce(&W)>(
    settle: S,
    writes: Seq<DeviceWrite>,
) -> bool {
    exists|w: &W| #[trigger] call_ensures(settle, (w,), ()) && w.writes() == writes
}

/// Executes one requested voltage change. A step up writes the voltage live. A
/// step down switches the output off, lets it settle, writes the voltage and
/// switches the output on again; a partial failure is followed by an attempt to
/// restore the output, so that a single glitch does not drop the load.
///
/// `settle` is the quiet window between the disable and the voltage write; it is
/// called with the device as it stands there, and nowhere else: not on a step up, and
/// not after a failed disable. Each failed write adds its kind to `errors`, but for a
/// re-enable that succeeds at the second attempt.
pub fn apply_update_voltage<W: VoltageWriter, S: FnOnce(&W)>(
    xy: &mut W,
    ticket: &VoltageTicket,
    settle: S,
    errors: &mut Vec<XyError>,
) -> (outcome: VoltageWriteOutcome)
    requires
        ticket.cycles() ==> forall|w: &W|
            w.writes() == old(xy).writes().push((DeviceWrite::Output { on: false, ok: true }))
                ==> #[trigger] call_requires(settle, (w,)),
    ensures
        final(xy).writes().len() >= old(xy).writes().len(),
        final(xy).writes().take(old(xy).writes().len() as int) == old(xy).writes(),
        final(errors)@.len() >= old(errors)@.len(),
        final(errors)@.take(old(errors)@.len() as int) == old(errors)@,
        ({
            let w = final(xy).writes().skip(old(xy).writes().len() as int);
            let e = final(errors)@.skip(old(errors)@.len() as int);
            if ticket.cycles() {
                &&& step_down(ticket.target(), w, e, outcome)
                &&& w.len() > 1 ==> settled_behind(settle, old(xy).writes().push(w[0]))
            } else {
                live_write(ticket.target(), w, e, outcome)
            }
        }),
{
    let ghost w0 = xy.writes();
    let ghost e0 = errors@;
    let target_v = ticket.target_v();
    if !ticket.cycle_output() {
        let written = xy.set_voltage(target_v).is_ok();
        if !written {
            errors.push(XyError::SetVoltage);
        }
        proof {
            let w = xy.writes().skip(w0.len() as int);
            let e = errors@.skip(e0.len() as int);
            assert(w =~= seq![DeviceWrite::Voltage { volts: target_v, ok: written }]);
            assert(e =~= (if written {
                seq![]
            } else {
                seq![XyError::SetVoltage]
            }));
            assert(xy.writes().take(w0.len() as int) =~= w0);
            assert(errors@.take(e0.len() as int) =~= e0);
        }
        return if written {
            VoltageWriteOutcome::Committed
        } else {
            VoltageWriteOutcome::Retry
        };
    }
    let disabled = xy.set_output(false).is_ok();
    if !disabled {
        errors.push(XyError::SetOutput);
        proof {
            assert(xy.writes().skip(w0.len() as int) =~= seq![
                DeviceWrite::Output { on: false, ok: false },
            ]);
            assert(errors@.skip(e0.len() as int) =~= seq![XyError::SetOutput]);
            assert(xy.writes().take(w0.len() as int) =~= w0);
            assert(errors@.take(e0.len() as int) =~= e0);
        }
        return VoltageWriteOutcome::Retry;
    }
    settle(&*xy);
    assert(settled_behind(settle, xy.writes()));
    let written = xy.set_voltage(target_v).is_ok();
    if !written {
        errors.push(XyError::SetVoltage);
        // The ticket stays uncommitted, so the supervisor asks again; until then
        // the load has to stay powered.
        let restored = xy.set_output(true).is_ok();
        if !restored {
            errors.push(XyError::SetOutput);
        }
        proof {
            assert(xy.writes().skip(w0.len() as int) =~= seq![
                DeviceWrite::Output { on: false, ok: true },
                DeviceWrite::Voltage { volts: target_v, ok: false },
                DeviceWrite::Output { on: true, ok: restored },
            ]);
            assert(restored ==> errors@.skip(e0.len() as int) =~= seq![XyError::SetVoltage]);
            assert(!restored ==> errors@.skip(e0.len() as int) =~= seq![
                XyError::SetVoltage,
                XyError::SetOutput,
            ]);
            assert(xy.writes().take(w0.len() as int) =~= w0);
            assert(errors@.take(e0.len() as int) =~= e0);
        }
        return VoltageWriteOutcome::Retry;
    }
    // Lasting failure is safe here: the voltage is on the device, so the next tick
    // finds the output off and latches.
    let first = xy.set_output(true).is_ok();
    let enabled = first || xy.set_output(true).is_ok();
    if !enabled {
        errors.push(XyError::SetOutput);
    }
    proof {
        let w = xy.writes().skip(w0.len() as int);
        let e = errors@.skip(e0.len() as int);
        assert(first ==> w =~= seq![
            DeviceWrite::Output { on: false, ok: true },
            DeviceWrite::Voltage { volts: target_v, ok: true },
            DeviceWrite::Output { on: true, ok: true },
        ]);
        assert(!first ==> w =~= seq![
            DeviceWrite::Output { on: false, ok: true },
            DeviceWrite::Voltage { volts: target_v, ok: true },
            DeviceWrite::Output { on: true, ok: false },
            DeviceWrite::Output { on: true, ok: enabled },
        ]);
        assert(enabled ==> e =~= Seq::<XyError>::empty());
        assert(!enabled ==> e =~= seq![XyError::SetOutput]);
        assert(xy.writes().take(w0.len() as int) =~= w0);
        assert(errors@.take(e0.len() as int) =~= e0);
    }
    VoltageWriteOutcome::Committed
}

/// In a step down the voltage is written only right after the output was switched
/// off, and the ticket is committed exactly when that write succeeded.
pub proof fn step_down_writes_with_the_output_off(
    target: F32,
    w: Seq<DeviceWrite>,
    errors: Seq<XyError>,
    outcome: VoltageWriteOutcome,
    i: int,
)
    requires
        step_down(target, w, errors, outcome),
        0 <= i < w.len(),
    ensures
        w[i] is Voltage ==> i > 0 && w[i - 1] == (DeviceWrite::Output { on: false, ok: true }),
        outcome == VoltageWriteOutcome::Committed <==> w.len() > 1 && w[1]
            == (DeviceWrite::Voltage { volts: target, ok: true }),
        w.len() > 1 ==> w.last() is Output && w.last()->on,
{
}

/// Whether a write succeeded.
pub open spec fn succeeded(w: DeviceWrite) -> bool {
    match w {
        DeviceWrite::Voltage { ok, .. } => ok,
        DeviceWrite::Output { ok, .. } => ok,
    }
}

/// How many of the errors are of a kind.
pub open spec fn count_of(errors: Seq<XyError>, kind: XyError) -> nat
    decreases errors.len(),
{
    if errors.len() == 0 {
        0
    } else {
        count_of(errors.drop_last(), kind) + (if errors.last() == kind {
            1nat
        } else {
            0nat
        })
    }
}

/// A step down switches off, writes the target, and switches on again, twice if it has
/// to. After a failed disable nothing follows; after any other failure the output is
/// still switched on again. What is reported is a voltage that was not written, and an
/// output that did not do what it was told in the end.
pub proof fn step_down_brings_the_output_back(
    target: F32,
    w: Seq<DeviceWrite>,
    errors: Seq<XyError>,
    outcome: VoltageWriteOutcome,
)
    requires
        step_down(target, w, errors, outcome),
    ensures
        1 <= w.len() <= 4,
        w[0] is Output && !w[0]->on,
        w.len() == 1 <==> !succeeded(w[0]),
        w.len() > 1 ==> {
            &&& w.len() >= 3
            &&& w[1] == (DeviceWrite::Voltage { volts: target, ok: succeeded(w[1]) })
            &&& w[2] is Output && w[2]->on
            &&& w.last() is Output && w.last()->on
            &&& w.len() == 4 <==> succeeded(w[1]) && !succeeded(w[2])
        },
        count_of(errors, XyError::SetVoltage) == (if w.len() > 1 && !succeeded(w[1]) {
            1nat
        } else {
            0nat
        }),
        count_of(errors, XyError::SetOutput) == (if succeeded(w.last()) {
            0nat
        } else {
            1nat
        }),
        errors.len() == count_of(errors, XyError::SetVoltage) + count_of(
            errors,
            XyError::SetOutput,
        ),
        outcome == (if w.len() > 1 && succeeded(w[1]) {
            VoltageWriteOutcome::Committed
        } else {
            VoltageWriteOutcome::Retry
        }),
{
    reveal_with_fuel(count_of, 4);
    assert(Seq::<XyError>::empty().len() == 0);
    let one = seq![XyError::SetOutput];
    let other = seq![XyError::SetVoltage];
    let both = seq![XyError::SetVoltage, XyError::SetOutput];
    assert(one.drop_last() =~= Seq::empty());
    assert(other.drop_last() =~= Seq::empty());
    assert(both.drop_last() =~= other);
}

/// A step up is one write of the target, reported where it failed.
pub proof fn step_up_is_one_write(
    target: F32,
    w: Seq<DeviceWrite>,
    errors: Seq<XyError>,
    outcome: VoltageWriteOutcome,
)
    requires
        live_write(target, w, errors, outcome),
    ensures
        w.len() == 1,
        w[0] == (DeviceWrite::Voltage { volts: target, ok: succeeded(w[0]) }),
        errors.len() == (if succeeded(w[0]) {
            0nat
        } else {
            1nat
        }),
        errors.len() == 1 ==> errors[0] == XyError::SetVoltage,
        outcome == VoltageWriteOutcome::Committed <==> succeeded(w[0]),
{
}

/// That the quiet window was called for means that it was called, on a device that had
/// seen these writes and no others.
pub proof fn settling_is_a_call<W: VoltageWriter, S: FnOnce(&W)>(
    settle: S,
    writes: Seq<DeviceWrite>,
) -> (device: W)
    requires
        settled_behind::<W, S>(settle, writes),
    ensures
        call_ensures(settle, (&device,), ()),
        device.writes() == writes,
{
    let w = choose|w: &W| #[trigger] call_ensures(settle, (w,), ()) && w.writes() == writes;
    *w
}

} // verus!
