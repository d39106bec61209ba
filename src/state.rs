use vstd::prelude::*;
use crate::particle::Particle;

verus! {

/// The one way a field can be misconfigured: a step size that is not
/// strictly positive.
#[derive(Debug, Clone, Copy, PartialEq, Eq, Structural)]
pub enum ConfigError {
    NonPositiveSpeed,
}

/// What a field is: the particles' positions in insertion order, the bounds
/// of the rectangle, and the standard deviation of the Gaussian steps.
pub struct FieldView {
    pub particles: Seq<(u64, u64)>,
    pub width: u64,
    pub height: u64,
    pub speed: i64,
}

/// One coordinate after a step: the candidate `coord + delta` is taken when it
/// lies strictly between `0` and `bound`, and otherwise the coordinate stays.
pub open spec fn stepped(coord: u64, delta: i64, bound: u64) -> u64 {
    let candidate = coord + delta;
    if 0 < candidate < bound {
        candidate as u64
    } else {
        coord
    }
}

impl FieldView {
    pub open spec fn center(self) -> (u64, u64) {
        ((self.width / 2) as u64, (self.height / 2) as u64)
    }

    pub open spec fn holds(self, p: (u64, u64)) -> bool {
        p.0 <= self.width && p.1 <= self.height
    }

    /// Every particle lies in `[0, width] x [0, height]`.
    pub open spec fn contained(self) -> bool {
        forall|i: int| 0 <= i < self.particles.len() ==> self.holds(#[trigger] self.particles[i])
    }

    /// The field after one tick in which particle `i` was offered the step
    /// `steps[i]`, `x` then `y`.
    pub open spec fn ticked(self, steps: Seq<[i64; 2]>) -> FieldView {
        FieldView {
            particles: Seq::new(
                self.particles.len(),
                |i: int|
                    (
                        stepped(self.particles[i].0, steps[i][0], self.width),
                        stepped(self.particles[i].1, steps[i][1], self.height),
                    ),
            ),
            ..self
        }
    }

    /// The field with `n` particles: the first ones kept in order, any new ones
    /// at the center.
    pub open spec fn resized(self, n: nat) -> FieldView {
        FieldView {
            particles: Seq::new(
                n,
                |i: int|
                    if i < self.particles.len() {
                        self.particles[i]
                    } else {
                        self.center()
                    },
            ),
            ..self
        }
    }

    /// The field after asking for step size `s`: taken when positive, refused
    /// otherwise.
    pub open spec fn with_speed(self, s: i64) -> FieldView {
        if s > 0 {
            FieldView { speed: s, ..self }
        } else {
            self
        }
    }
}

/// The field after the ticks `runs[0]`, `runs[1]`, ... in turn.
pub open spec fn ticks(v: FieldView, runs: Seq<Seq<[i64; 2]>>) -> FieldView
    decreases runs.len(),
{
    if runs.len() == 0 {
        v
    } else {
        ticks(v, runs.drop_last()).ticked(runs.last())
    }
}

/// A tick keeps every particle in `[0, width] x [0, height]`, whatever the
/// steps.
pub proof fn lemma_tick_keeps_contained(v: FieldView, steps: Seq<[i64; 2]>)
    requires
        v.contained(),
    ensures
        v.ticked(steps).contained(),
        v.ticked(steps).particles.len() == v.particles.len(),
{
}

/// A step that would carry a particle onto or past the edge of one axis is
/// refused on that axis alone: the coordinate stays, while the other axis
/// still takes its own step.
pub proof fn lemma_edge_step_rejected(v: FieldView, steps: Seq<[i64; 2]>, i: int)
    requires
        0 <= i < v.particles.len(),
        v.particles[i].0 + steps[i][0] >= v.width,
    ensures
        v.ticked(steps).particles[i].0 == v.particles[i].0,
        v.ticked(steps).particles[i].1 == stepped(v.particles[i].1, steps[i][1], v.height),
{
}

/// Any number of ticks from a field whose particles are all in bounds leaves
/// them all in bounds.
pub proof fn lemma_ticks_keep_contained(v: FieldView, runs: Seq<Seq<[i64; 2]>>)
    requires
        v.contained(),
    ensures
        ticks(v, runs).contained(),
    decreases runs.len(),
{
    if runs.len() > 0 {
        lemma_ticks_keep_contained(v, runs.drop_last());
        lemma_tick_keeps_contained(ticks(v, runs.drop_last()), runs.last());
    }
}

/// Growing a field of `count` particles to `count + k` gives `count + k`
/// particles: the old ones unchanged, the `k` new ones at the center.
pub proof fn lemma_resize_grows(v: FieldView, k: nat)
    ensures
        v.resized(v.particles.len() + k).particles.len() == v.particles.len() + k,
        v.resized(v.particles.len() + k).particles.take(v.particles.len() as int)
            == v.particles,
        forall|i: int|
            v.particles.len() <= i < v.particles.len() + k ==> #[trigger] v.resized(
                v.particles.len() + k,
            ).particles[i] == v.center(),
{
    assert(v.resized(v.particles.len() + k).particles.take(v.particles.len() as int)
        =~= v.particles);
}

/// Shrinking a field of `count` particles to `count - k` keeps exactly the
/// first `count - k`, in their order.
pub proof fn lemma_resize_shrinks(v: FieldView, k: nat)
    requires
        k <= v.particles.len(),
    ensures
        v.resized((v.particles.len() - k) as nat).particles == v.particles.take(
            v.particles.len() - k,
        ),
{
    assert(v.resized((v.particles.len() - k) as nat).particles =~= v.particles.take(
        v.particles.len() - k,
    ));
}

/// Asking twice in a row for the same speed leaves the field as asking once
/// does, so every later tick behaves the same.
pub proof fn lemma_speed_update_idempotent(v: FieldView, s: i64)
    ensures
        v.with_speed(s).with_speed(s) == v.with_speed(s),
        forall|runs: Seq<Seq<[i64; 2]>>|
            #[trigger] ticks(v.with_speed(s).with_speed(s), runs) == ticks(v.with_speed(s), runs),
{
}

/// A field of particles, each doing a random walk inside a rectangle.
pub struct State {
    particles: Vec<Particle>,
    max_bounds: [u64; 2],
    speed: i64,
}

impl View for State {
    type V = FieldView;

    closed spec fn view(&self) -> FieldView {
        FieldView {
            particles: self.particles@.map_values(|p: Particle| p@),
            width: self.max_bounds[0],
            height: self.max_bounds[1],
            speed: self.speed,
        }
    }
}

/// `coord + delta`, kept when it lies strictly inside `(0, bound)`.
fn step_axis(coord: u64, delta: i64, bound: u64) -> (r: u64)
    ensures
        r == stepped(coord, delta, bound),
{
    let candidate: i128 = coord as i128 + delta as i128;
    if 0 < candidate && candidate < bound as i128 {
        candidate as u64
    } else {
        coord
    }
}

impl State {
    /// The field holds a positive step size and keeps every particle in bounds.
    pub open spec fn wf(&self) -> bool {
        self@.speed > 0 && self@.contained()
    }

    /// A field of `initial_count` particles, all at the center of the
    /// `width` by `height` rectangle, taking steps of standard deviation
    /// `initial_speed`; refused when `initial_speed` is not positive.
    pub fn new(width: u64, height: u64, initial_count: usize, initial_speed: i64) -> (r: Result<
        State,
        ConfigError,
    >)
        ensures
            initial_speed > 0 <==> r is Ok,
            r matches Err(e) ==> e == ConfigError::NonPositiveSpeed,
            r matches Ok(s) ==> {
                &&& s.wf()
                &&& s@.width == width
                &&& s@.height == height
                &&& s@.speed == initial_speed
                &&& s@.particles == Seq::new(initial_count as nat, |i: int| s@.center())
            },
    {
        if initial_speed <= 0 {
            return Err(ConfigError::NonPositiveSpeed);
        }
        let mut particles: Vec<Particle> = Vec::new();
        let mut k: usize = 0;
        while k < initial_count
            invariant
                k <= initial_count,
                particles@.len() == k,
                forall|j: int|
                    0 <= j < k ==> #[trigger] particles@[j]@ == ((width / 2) as u64, (height
                        / 2) as u64),
            decreases initial_count - k,
        {
            particles.push(Particle::new([width / 2, height / 2]));
            k = k + 1;
        }
        let s = State { particles, max_bounds: [width, height], speed: initial_speed };
        assert(s@.particles =~= Seq::new(initial_count as nat, |i: int| s@.center()));
        Ok(s)
    }

    /// Moves every particle by one step per axis: particle `i` is offered
    /// `steps[i]`, and on each axis the move is taken only when it lands
    /// strictly inside the bounds.
    pub fn tick(&mut self, steps: &Vec<[i64; 2]>)
        requires
            old(self).wf(),
            steps@.len() == old(self)@.particles.len(),
        ensures
            final(self).wf(),
            final(self)@ == old(self)@.ticked(steps@),
    {
        let n = self.particles.len();
        let mut i: usize = 0;
        while i < n
            invariant
                n == old(self)@.particles.len(),
                steps@.len() == n,
                i <= n,
                self.max_bounds == old(self).max_bounds,
                self.speed == old(self).speed,
                self.particles@.len() == n,
                forall|j: int|
                    0 <= j < i ==> #[trigger] self.particles@[j]@ == old(self)@.ticked(
                        steps@,
                    ).particles[j],
                forall|j: int| i <= j < n ==> #[trigger] self.particles@[j]@ == old(self).particles@[j]@,
            decreases n - i,
        {
            let cur = *self.particles[i].pos();
            let step = steps[i];
            let x = step_axis(cur[0], step[0], self.max_bounds[0]);
            let y = step_axis(cur[1], step[1], self.max_bounds[1]);
            self.particles.set(i, Particle::new([x, y]));
            i = i + 1;
        }
        assert(self@.particles =~= old(self)@.ticked(steps@).particles);
    }

    /// Resizes the field to `new_size` particles: the most recently added ones
    /// go first when it shrinks, and new ones start at the center when it
    /// grows.
    pub fn update_num_particles(&mut self, new_size: usize)
        requires
            old(self).wf(),
        ensures
            final(self).wf(),
            final(self)@ == old(self)@.resized(new_size as nat),
    {
        if new_size < self.particles.len() {
            self.particles.truncate(new_size);
        } else {
            let cx = self.max_bounds[0] / 2;
            let cy = self.max_bounds[1] / 2;
            let n = self.particles.len();
            while self.particles.len() < new_size
                invariant
                    n == old(self)@.particles.len(),
                    n <= self.particles@.len() <= new_size,
                    self.max_bounds == old(self).max_bounds,
                    self.speed == old(self).speed,
                    cx == old(self)@.center().0,
                    cy == old(self)@.center().1,
                    forall|j: int| 0 <= j < n ==> #[trigger] self.particles@[j] == old(self).particles@[j],
                    forall|j: int|
                        n <= j < self.particles@.len() ==> #[trigger] self.particles@[j]@ == (
                        cx,
                        cy,
                    ),
                decreases new_size - self.particles@.len(),
            {
                self.particles.push(Particle::new([cx, cy]));
            }
        }
        assert(self@.particles =~= old(self)@.resized(new_size as nat).particles);
    }

    /// The standard deviation of the steps.
    pub fn speed(&self) -> (r: i64)
        ensures
            r == self@.speed,
    {
        self.speed
    }

    /// Sets the standard deviation of the steps to `speed`, from the next tick
    /// on. A speed that is not positive is refused and the field is left as it
    /// was.
    pub fn update_speed(&mut self, speed: i64) -> (r: Result<(), ConfigError>)
        requires
            old(self).wf(),
        ensures
            final(self).wf(),
            final(self)@ == old(self)@.with_speed(speed),
            speed > 0 <==> r is Ok,
            r matches Err(e) ==> e == ConfigError::NonPositiveSpeed,
    {
        if speed <= 0 {
            return Err(ConfigError::NonPositiveSpeed);
        }
        self.speed = speed;
        assert(self@.particles =~= old(self)@.particles);
        Ok(())
    }

    /// The particles, in insertion order.
    pub fn particles(&self) -> (r: &[Particle])
        ensures
            r@.map_values(|p: Particle| p@) == self@.particles,
    {
        self.particles.as_slice()
    }
}

} // verus!
