//! The animation clock: the three axis angles, the selected rotation axis,
//! the speed setting, and the per-tick advancement policies that keep every
//! angle wrapped inside one full turn.
//!
//! Angles are carried in microradians so that the whole clock is exact
//! integer arithmetic.

use vstd::prelude::*;

verus! {

/// One full turn (two pi radians) in microradians, rounded down.
pub const TAU_MICRORAD: u64 = 6283185;

/// Fixed-timestep policy: the constant per-tick increment, in microradians.
pub const TICK_MICRORAD: u64 = 50000;

/// Smallest accepted speed setting, in thousandths.
pub const SPEED_MILLI_MIN: u64 = 10;

/// Largest accepted speed setting, in thousandths.
pub const SPEED_MILLI_MAX: u64 = 500;

/// Default speed setting, in thousandths.
pub const SPEED_MILLI_DEFAULT: u64 = 50;

/// Largest elapsed time one variable-timestep tick accepts, in microseconds;
/// keeps the increment arithmetic inside `u64`.
pub const ELAPSED_MICROS_MAX: u64 = 1000000000000;

/// The axis whose angle is advanced each tick.
#[derive(Clone, Copy, PartialEq, Eq, Structural, Debug)]
pub enum Axis {
    X,
    Y,
    Z,
}

/// What an axis token names: only `x`, `y` and `z` are axes.
pub open spec fn parse_axis_spec(token: char) -> Option<Axis> {
    if token == 'x' {
        Some(Axis::X)
    } else if token == 'y' {
        Some(Axis::Y)
    } else if token == 'z' {
        Some(Axis::Z)
    } else {
        None
    }
}

/// Parse an axis token.
pub fn parse_axis(token: char) -> (a: Option<Axis>)
    ensures
        a == parse_axis_spec(token),
{
    if token == 'x' {
        Some(Axis::X)
    } else if token == 'y' {
        Some(Axis::Y)
    } else if token == 'z' {
        Some(Axis::Z)
    } else {
        None
    }
}

/// The wrap check applied after every advancement: a value that reached one
/// full turn is reset to zero, anything below passes unchanged.
pub open spec fn wrap_spec(a: int) -> int {
    if a >= TAU_MICRORAD {
        0
    } else {
        a
    }
}

/// After the wrap check a nonnegative angle lies in `[0, TAU_MICRORAD)`:
/// advancing an angle that is within one increment of a full turn crosses
/// back into range, and no angle ever leaves it.
pub proof fn lemma_wrap_in_range(a: int)
    requires
        0 <= a,
    ensures
        0 <= wrap_spec(a) < TAU_MICRORAD,
{
}

/// Variable-timestep increment, in microradians: the speed setting (in
/// thousandths) times the elapsed time (in microseconds) times the
/// 60-tick-per-second normalization.
pub open spec fn timed_increment_spec(speed_milli: int, elapsed_micros: int) -> int {
    speed_milli * elapsed_micros * 60 / 1000
}

/// The animation clock's state: three axis angles in microradians, the
/// selected axis, and the speed setting in thousandths.
pub struct AnimState {
    pub angle_x: u64,
    pub angle_y: u64,
    pub angle_z: u64,
    pub axis: Axis,
    pub speed_milli: u64,
}

/// How one advancement step relates the next state to the previous one:
/// only the selected axis' angle moves, by `inc` and then the wrap check;
/// the other two angles stay at their last value.
pub open spec fn advanced_by(pre: AnimState, post: AnimState, inc: int) -> bool {
    match pre.axis {
        Axis::X => {
            &&& post.angle_x == wrap_spec(pre.angle_x + inc)
            &&& post.angle_y == pre.angle_y
            &&& post.angle_z == pre.angle_z
        },
        Axis::Y => {
            &&& post.angle_y == wrap_spec(pre.angle_y + inc)
            &&& post.angle_x == pre.angle_x
            &&& post.angle_z == pre.angle_z
        },
        Axis::Z => {
            &&& post.angle_z == wrap_spec(pre.angle_z + inc)
            &&& post.angle_x == pre.angle_x
            &&& post.angle_y == pre.angle_y
        },
    }
}

impl AnimState {
    /// Every angle wrapped inside one turn, the speed within its bounds.
    pub open spec fn wf(self) -> bool {
        &&& self.angle_x < TAU_MICRORAD
        &&& self.angle_y < TAU_MICRORAD
        &&& self.angle_z < TAU_MICRORAD
        &&& SPEED_MILLI_MIN <= self.speed_milli <= SPEED_MILLI_MAX
    }

    /// The initial clock: all angles zero, the Z axis selected, the default
    /// speed.
    pub fn new() -> (s: AnimState)
        ensures
            s.wf(),
            s.angle_x == 0,
            s.angle_y == 0,
            s.angle_z == 0,
            s.axis == Axis::Z,
            s.speed_milli == SPEED_MILLI_DEFAULT,
    {
        AnimState {
            angle_x: 0,
            angle_y: 0,
            angle_z: 0,
            axis: Axis::Z,
            speed_milli: SPEED_MILLI_DEFAULT,
        }
    }

    /// Switch the rotation axis: all three angles reset to exactly zero, the
    /// speed setting survives.
    pub fn select_axis(&mut self, a: Axis)
        ensures
            final(self).axis == a,
            final(self).angle_x == 0,
            final(self).angle_y == 0,
            final(self).angle_z == 0,
            final(self).speed_milli == old(self).speed_milli,
            old(self).wf() ==> final(self).wf(),
    {
        self.axis = a;
        self.angle_x = 0;
        self.angle_y = 0;
        self.angle_z = 0;
    }

    /// Change the speed setting within its bounds.
    pub fn set_speed(&mut self, speed_milli: u64)
        requires
            SPEED_MILLI_MIN <= speed_milli <= SPEED_MILLI_MAX,
        ensures
            final(self).speed_milli == speed_milli,
            final(self).angle_x == old(self).angle_x,
            final(self).angle_y == old(self).angle_y,
            final(self).angle_z == old(self).angle_z,
            final(self).axis == old(self).axis,
            old(self).wf() ==> final(self).wf(),
    {
        self.speed_milli = speed_milli;
    }

    /// Fixed-timestep tick: add the constant increment to the selected
    /// axis' angle, then apply the wrap check.
    pub fn advance_fixed(&mut self)
        requires
            old(self).wf(),
        ensures
            final(self).wf(),
            final(self).axis == old(self).axis,
            final(self).speed_milli == old(self).speed_milli,
            advanced_by(*old(self), *final(self), TICK_MICRORAD as int),
    {
        self.advance_by(TICK_MICRORAD);
    }

    /// Variable-timestep tick: the increment scales with the real elapsed
    /// time and the speed setting, decoupling rotation rate from redraw
    /// frequency.
    pub fn advance_timed(&mut self, elapsed_micros: u64)
        requires
            old(self).wf(),
            elapsed_micros <= ELAPSED_MICROS_MAX,
        ensures
            final(self).wf(),
            final(self).axis == old(self).axis,
            final(self).speed_milli == old(self).speed_milli,
            advanced_by(
                *old(self),
                *final(self),
                timed_increment_spec(old(self).speed_milli as int, elapsed_micros as int),
            ),
    {
        assert(self.speed_milli * elapsed_micros * 60 <= 30000000000000000) by (nonlinear_arith)
            requires
                self.speed_milli <= 500,
                elapsed_micros <= 1000000000000,
        ;
        let inc: u64 = self.speed_milli * elapsed_micros * 60 / 1000;
        self.advance_by(inc);
    }

    /// Variable-timestep tick driven by an external axis token: a token
    /// outside `{x, y, z}` skips the advancement entirely and leaves the
    /// angle state unchanged.
    pub fn advance_timed_token(&mut self, token: char, elapsed_micros: u64)
        requires
            old(self).wf(),
            elapsed_micros <= ELAPSED_MICROS_MAX,
        ensures
            final(self).wf(),
            final(self).speed_milli == old(self).speed_milli,
            forall|a: Axis|
                parse_axis_spec(token) == Some(a) ==> {
                    &&& final(self).axis == a
                    &&& advanced_by(
                        AnimState { axis: a, ..*old(self) },
                        *final(self),
                        timed_increment_spec(old(self).speed_milli as int, elapsed_micros as int),
                    )
                },
            parse_axis_spec(token) == Option::<Axis>::None ==> *final(self) == *old(self),
    {
        match parse_axis(token) {
            Some(a) => {
                self.axis = a;
                self.advance_timed(elapsed_micros);
            },
            None => {},
        }
    }

    /// Add `inc` to the selected axis' angle and apply the wrap check.
    fn advance_by(&mut self, inc: u64)
        requires
            old(self).wf(),
            inc <= 30000000000000,
        ensures
            final(self).wf(),
            final(self).axis == old(self).axis,
            final(self).speed_milli == old(self).speed_milli,
            advanced_by(*old(self), *final(self), inc as int),
    {
        match self.axis {
            Axis::X => {
                let a = self.angle_x + inc;
                self.angle_x = if a >= TAU_MICRORAD {
                    0
                } else {
                    a
                };
            },
            Axis::Y => {
                let a = self.angle_y + inc;
                self.angle_y = if a >= TAU_MICRORAD {
                    0
                } else {
                    a
                };
            },
            Axis::Z => {
                let a = self.angle_z + inc;
                self.angle_z = if a >= TAU_MICRORAD {
                    0
                } else {
                    a
                };
            },
        }
    }
}

} // verus!
