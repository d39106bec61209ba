use vstd::prelude::*;
use crate::state::{lemma_tick_keeps_contained, FieldView, State};

verus! {

/// The live controls as read at the start of a frame: the particle count and
/// step size asked for, and whether the animation is paused.
#[derive(Debug, Clone, Copy, PartialEq, Eq, Structural)]
pub struct Controls {
    pub num_particles: usize,
    pub speed: i64,
    pub is_paused: bool,
}

/// What the driver of the loop does next.
#[derive(Debug, Clone, Copy, PartialEq, Eq, Structural)]
pub enum FrameAction {
    /// Leave the picture as it is and ask for the next frame.
    RequestNextFrame,
    /// Draw one step per axis for each of `count` particles from a zero-mean
    /// Gaussian of standard deviation `std_dev`, and hand them to
    /// `complete_frame`.
    DrawSteps { count: usize, std_dev: i64 },
    /// Paint the particles, then ask for the next frame.
    RenderThenRequestNextFrame,
}

/// The field brought in line with the controls: resized to the count asked
/// for, then given the speed asked for where that speed is positive.
pub open spec fn reconciled(v: FieldView, c: Controls) -> FieldView {
    v.resized(c.num_particles as nat).with_speed(c.speed)
}

/// The start of a frame: paused, nothing changes and the next frame is asked
/// for; running, the field is reconciled and steps are asked for.
pub open spec fn frame_start(v: FieldView, c: Controls) -> (FieldView, FrameAction) {
    if c.is_paused {
        (v, FrameAction::RequestNextFrame)
    } else {
        let r = reconciled(v, c);
        (r, FrameAction::DrawSteps { count: c.num_particles, std_dev: r.speed })
    }
}

/// A whole frame under controls `c`, where a running frame is given `steps`.
pub open spec fn frame(v: FieldView, c: Controls, steps: Seq<[i64; 2]>) -> FieldView {
    if c.is_paused {
        v
    } else {
        frame_start(v, c).0.ticked(steps)
    }
}

/// The frames `0 .. cs.len()` in turn, frame `i` under `cs[i]` with `steps[i]`.
pub open spec fn frames(v: FieldView, cs: Seq<Controls>, steps: Seq<Seq<[i64; 2]>>) -> FieldView
    decreases cs.len(),
{
    if cs.len() == 0 {
        v
    } else {
        frame(frames(v, cs.drop_last(), steps), cs.last(), steps[cs.len() - 1])
    }
}

/// Every field reached from one whose particles are all in bounds, by any
/// frames under any controls and steps, has its particles all in bounds.
pub proof fn lemma_frames_keep_contained(
    v: FieldView,
    cs: Seq<Controls>,
    steps: Seq<Seq<[i64; 2]>>,
)
    requires
        v.contained(),
    ensures
        frames(v, cs, steps).contained(),
    decreases cs.len(),
{
    if cs.len() > 0 {
        lemma_frames_keep_contained(v, cs.drop_last(), steps);
        let u = frames(v, cs.drop_last(), steps);
        let r = reconciled(u, cs.last());
        assert(r.contained()) by {
            assert forall|i: int| 0 <= i < r.particles.len() implies r.holds(
                #[trigger] r.particles[i],
            ) by {
                if i >= u.particles.len() {
                    assert(r.particles[i] == u.center());
                }
            }
        }
        lemma_tick_keeps_contained(r, steps[cs.len() - 1]);
    }
}

/// While paused, frames leave every particle where it was and each one asks
/// for the next frame; the first frame after unpausing goes on to draw steps
/// and tick, with no restart.
pub proof fn lemma_pause_keeps_loop_alive(
    v: FieldView,
    cs: Seq<Controls>,
    steps: Seq<Seq<[i64; 2]>>,
    c: Controls,
)
    requires
        forall|i: int| 0 <= i < cs.len() ==> (#[trigger] cs[i]).is_paused,
        !c.is_paused,
    ensures
        frames(v, cs, steps) == v,
        forall|i: int|
            0 <= i < cs.len() ==> #[trigger] frame_start(v, cs[i]) == (
            v,
            FrameAction::RequestNextFrame,
        ),
        frame_start(frames(v, cs, steps), c).1 == (FrameAction::DrawSteps {
            count: c.num_particles,
            std_dev: reconciled(v, c).speed,
        }),
    decreases cs.len(),
{
    if cs.len() > 0 {
        assert forall|i: int| 0 <= i < cs.drop_last().len() implies (#[trigger] cs.drop_last()[i]).is_paused by {
            assert(cs.drop_last()[i] == cs[i]);
        }
        lemma_pause_keeps_loop_alive(v, cs.drop_last(), steps, c);
        assert(cs[cs.len() - 1].is_paused);
    }
}

/// Starts a frame under `controls`. Paused, the field is left untouched and
/// the loop is told to ask for the next frame. Running, the field is resized
/// and given the new speed where those differ from the controls, and the loop
/// is told how many steps to draw and with which standard deviation.
pub fn begin_frame(state: &mut State, controls: &Controls) -> (a: FrameAction)
    requires
        old(state).wf(),
    ensures
        final(state).wf(),
        (final(state)@, a) == frame_start(old(state)@, *controls),
{
    if controls.is_paused {
        return FrameAction::RequestNextFrame;
    }
    if controls.num_particles != state.particles().len() {
        state.update_num_particles(controls.num_particles);
    } else {
        assert(state@.resized(controls.num_particles as nat).particles =~= state@.particles);
    }
    if controls.speed != state.speed() {
        let _ = state.update_speed(controls.speed);
    }
    FrameAction::DrawSteps { count: controls.num_particles, std_dev: state.speed() }
}

/// Ends a running frame: ticks the field with the steps that were drawn, and
/// tells the loop to paint and ask for the next frame.
pub fn complete_frame(state: &mut State, steps: &Vec<[i64; 2]>) -> (a: FrameAction)
    requires
        old(state).wf(),
        steps@.len() == old(state)@.particles.len(),
    ensures
        final(state).wf(),
        final(state)@ == old(state)@.ticked(steps@),
        a == FrameAction::RenderThenRequestNextFrame,
{
    state.tick(steps);
    FrameAction::RenderThenRequestNextFrame
}

} // verus!
