//! What both user interfaces draw: the direction of the power flow and the scale of the power
//! axis.
use crate::watts::{is_peak, law_abs_drops_the_sign, law_sign_shows_in_the_bits, peak, Watts};
use vstd::prelude::*;

verus! {

/// The direction of the power flow. Zero counts as consumption.
#[derive(Clone, Copy, Debug, PartialEq, Eq, Structural)]
pub enum Flow {
    /// Power from the grid, drawn in red.
    Consumption,
    /// Power into the grid, drawn in green.
    Injection,
}

/// The direction of a reading. What is not a number counts as injection.
pub open spec fn flow(y: Watts) -> Flow {
    if !y.is_nan() && y.units() >= 0 {
        Flow::Consumption
    } else {
        Flow::Injection
    }
}

/// The direction of a reading.
pub fn flow_of(y: Watts) -> (f: Flow)
    ensures
        f == flow(y),
{
    if y.at_least_zero() {
        Flow::Consumption
    } else {
        Flow::Injection
    }
}

/// Half the height of the power axis while there is nothing to scale it by, in watts.
pub const FLAT_LIMIT_W: u32 = 10;

/// The scale of the power axis, which has zero in its middle.
#[derive(Clone, Copy, Debug, PartialEq, Eq, Structural)]
pub enum PowerAxis {
    /// All readings are zero: the axis ends at `FLAT_LIMIT_W` on both sides.
    Flat,
    /// The greatest absolute reading: the axis ends a tenth beyond it on both sides.
    Peak(Watts),
}

impl PowerAxis {
    /// The scale belongs to these readings.
    pub open spec fn fits(self, readings: Seq<Watts>) -> bool {
        match self {
            PowerAxis::Flat => forall|i: int|
                0 <= i < readings.len() ==> (#[trigger] readings[i]).is_nan()
                    || readings[i].units() == 0,
            PowerAxis::Peak(top) => is_peak(readings, top) && top.units() > 0,
        }
    }
}

/// Chooses the scale of the power axis.
pub fn power_axis(readings: &Vec<Watts>) -> (axis: PowerAxis)
    ensures
        axis.fits(readings@),
{
    let top = peak(readings);
    proof {
        assert forall|i: int| 0 <= i < readings@.len() implies {
            let y = #[trigger] readings@[i];
            &&& y.unsigned().units() >= 0
            &&& y.unsigned().units() == 0 ==> y.units() == 0
        } by {
            law_abs_drops_the_sign(readings@[i]);
        }
        if top.bits != 0 {
            let i = choose|i: int|
                0 <= i < readings@.len() && top == (#[trigger] readings@[i]).unsigned();
            law_abs_drops_the_sign(readings@[i]);
        }
    }
    if top.is_zero() {
        PowerAxis::Flat
    } else {
        PowerAxis::Peak(top)
    }
}

/// The scale is determined by the readings.
pub proof fn law_power_axis_is_unique(readings: Seq<Watts>, a: PowerAxis, b: PowerAxis)
    requires
        a.fits(readings),
        b.fits(readings),
    ensures
        a == b,
{
    if let PowerAxis::Peak(top) = a {
        if let PowerAxis::Peak(other) = b {
            crate::watts::law_extremes_are_unique(readings, top, other);
        }
    }
    assert forall|i: int| 0 <= i < readings.len() implies {
        let y = #[trigger] readings[i];
        &&& y.unsigned().is_nan() == y.is_nan()
        &&& y.units() == 0 ==> y.unsigned().units() == 0
    } by {
        law_abs_drops_the_sign(readings[i]);
    }
}

/// No reading reaches beyond the peak, on either side of zero.
pub proof fn law_readings_stay_within_the_peak(readings: Seq<Watts>, top: Watts, i: int)
    requires
        PowerAxis::Peak(top).fits(readings),
        0 <= i < readings.len(),
        !readings[i].is_nan(),
    ensures
        -top.units() <= readings[i].units() <= top.units(),
{
    law_abs_drops_the_sign(readings[i]);
}

/// A reading is drawn as consumption if and only if it is a number and not below zero, however
/// large it is: the bits from plus zero to plus infinity, and minus zero.
pub proof fn law_flow_is_the_side_of_zero(y: Watts)
    ensures
        !y.is_nan() ==> (flow(y) == Flow::Consumption <==> y.units() >= 0),
        !y.is_nan() ==> (flow(y) == Flow::Injection <==> y.units() < 0),
        y.is_nan() ==> flow(y) == Flow::Injection,
        flow(y) == Flow::Consumption <==> y.bits <= 0x7ff0_0000_0000_0000 || y.bits
            == 0x8000_0000_0000_0000,
{
    law_sign_shows_in_the_bits(y);
}

/// More power is never drawn as injection where less power was consumption.
pub proof fn law_flow_turns_once(less: Watts, more: Watts)
    requires
        !less.is_nan(),
        !more.is_nan(),
        less.units() <= more.units(),
    ensures
        flow(less) == Flow::Consumption ==> flow(more) == Flow::Consumption,
        flow(more) == Flow::Injection ==> flow(less) == Flow::Injection,
{
}

/// The power axis is flat if and only if no reading differs from zero; otherwise it is scaled by
/// a reading without its sign that no other one exceeds.
pub proof fn law_power_axis_is_scaled_by_a_reading(readings: Seq<Watts>, axis: PowerAxis)
    requires
        axis.fits(readings),
    ensures
        axis is Flat <==> forall|i: int|
            0 <= i < readings.len() ==> (#[trigger] readings[i]).is_nan() || readings[i].units()
                == 0,
        axis matches PowerAxis::Peak(top) ==> {
            &&& exists|i: int|
                0 <= i < readings.len() && !(#[trigger] readings[i]).is_nan()
                    && readings[i].bits % 0x8000_0000_0000_0000 == top.bits
            &&& forall|i: int|
                0 <= i < readings.len() && !(#[trigger] readings[i]).is_nan() ==> -top.units()
                    <= readings[i].units() <= top.units()
        },
{
    if let PowerAxis::Peak(top) = axis {
        law_sign_shows_in_the_bits(top);
        let k = choose|k: int| 0 <= k < readings.len() && top == (#[trigger] readings[k]).unsigned();
        law_abs_drops_the_sign(readings[k]);
        assert(!readings[k].is_nan() && readings[k].units() != 0);
        assert(readings[k].bits % 0x8000_0000_0000_0000 == top.bits);
        assert forall|i: int| 0 <= i < readings.len() && !(#[trigger] readings[i]).is_nan() implies
            -top.units() <= readings[i].units() <= top.units() by {
            law_abs_drops_the_sign(readings[i]);
        }
    }
}

/// While there is no power, the axis ends at ten watts.
pub proof fn law_flat_axis_shows_ten_watts()
    ensures
        FLAT_LIMIT_W == 10,
{
}

} // verus!
