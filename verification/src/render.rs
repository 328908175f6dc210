//! One render-loop pass: rotate the base grid through the current angles'
//! trig pairs, then advance the animation clock for the next tick. The base
//! grid is the immutable rotation source; every pass allocates a fresh
//! destination frame.

use vstd::prelude::*;
use crate::clock::AnimState;
use crate::clock::ELAPSED_MICROS_MAX;
use crate::clock::advanced_by;
use crate::clock::timed_increment_spec;
use crate::grid::CharGrid;
use crate::rotate::Trig3;
use crate::rotate::rotate3_spec;
use crate::rotate::rotate_grid3;
use crate::rotate::trig3_in_range;

verus! {

/// Produce the frame for the current tick from the base grid and the scaled
/// trig pairs of the current angles, then advance the selected axis' angle
/// by the variable-timestep policy.
pub fn render_frame(base: &CharGrid, t: &Trig3, state: &mut AnimState, elapsed_micros: u64) -> (frame:
    CharGrid)
    requires
        base.wf(),
        trig3_in_range(*t),
        old(state).wf(),
        elapsed_micros <= ELAPSED_MICROS_MAX,
    ensures
        frame.wf(),
        frame.width == base.width,
        frame.height == base.height,
        frame.cells@ == rotate3_spec(base.cells@, *t, base.width as int, base.height as int),
        final(state).wf(),
        final(state).axis == old(state).axis,
        final(state).speed_milli == old(state).speed_milli,
        advanced_by(
            *old(state),
            *final(state),
            timed_increment_spec(old(state).speed_milli as int, elapsed_micros as int),
        ),
{
    let frame = rotate_grid3(base, t);
    state.advance_timed(elapsed_micros);
    frame
}

} // verus!
