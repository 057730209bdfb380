use crate::fixed::scale;
use crate::fixed::scaled;
use crate::fixed::ONE;
use crate::snapshot::copy_of;
use crate::snapshot::Snapshot;
use vstd::prelude::*;

verus! {

/// Whether a coordinate touches the band of width `inset` along either wall.
pub open spec fn near_wall(coordinate: int, inset: int) -> bool {
    coordinate <= -(ONE as int) + inset || coordinate >= ONE as int - inset
}

/// Width of the band along the walls that bound entry `i` of a state vector:
/// the radius for a horizontal coordinate, the radius scaled by the aspect
/// ratio for a vertical one.
pub open spec fn inset_of(i: int, radius: i64, aspect_ratio: i64) -> int {
    if i % 2 == 0 {
        radius as int
    } else {
        scaled(radius as int, aspect_ratio as int)
    }
}

/// Number of entries of a state vector that belong to a whole particle.
pub open spec fn paired(len: nat) -> int {
    len - len % 2
}

/// Whether evaluating the derivative at `y` turns velocity entry `i` around.
pub open spec fn turns(y: Seq<i64>, i: int, radius: i64, aspect_ratio: i64) -> bool {
    0 <= i < paired(y.len()) && near_wall(y[i] as int, inset_of(i, radius, aspect_ratio))
}

/// The velocities after the derivative has been evaluated at `y`.
pub open spec fn reflected(y: Seq<i64>, v: Seq<i64>, radius: i64, aspect_ratio: i64) -> Seq<i64> {
    Seq::new(
        v.len(),
        |i: int|
            if turns(y, i, radius, aspect_ratio) {
                (-v[i]) as i64
            } else {
                v[i]
            },
    )
}

/// The derivative of the state at `y`: the reflected velocity of each whole
/// particle, and zero for a trailing entry without a partner.
pub open spec fn derivative_at(y: Seq<i64>, v: Seq<i64>, radius: i64, aspect_ratio: i64) -> Seq<
    i64,
> {
    Seq::new(
        y.len(),
        |i: int|
            if i < paired(y.len()) {
                reflected(y, v, radius, aspect_ratio)[i]
            } else {
                0i64
            },
    )
}

/// Every entry has a negation that fits the machine word.
pub open spec fn negatable(v: Seq<i64>) -> bool {
    forall|i: int| 0 <= i < v.len() ==> #[trigger] v[i] > i64::MIN
}

/// Decides whether `coordinate` touches the band of width `inset` along a wall.
pub fn touches_wall(coordinate: i64, inset: i128) -> (near: bool)
    requires
        -0x4000_0000_0000_0000_0000_0000_0000_0000 <= inset
            <= 0x4000_0000_0000_0000_0000_0000_0000_0000,
    ensures
        near == near_wall(coordinate as int, inset as int),
{
    let wide: i128 = coordinate as i128;
    wide <= -1_000_000 + inset || wide >= 1_000_000 - inset
}

/// Evaluates the derivative of the state `y`, turning around in `velocity` every
/// component whose coordinate touches a wall.
pub fn particle_derivative(
    y: &Vec<i64>,
    velocity: &mut Vec<i64>,
    radius: i64,
    aspect_ratio: i64,
) -> (derivative: Vec<i64>)
    requires
        y@.len() == old(velocity)@.len(),
        negatable(old(velocity)@),
    ensures
        final(velocity)@ == reflected(y@, old(velocity)@, radius, aspect_ratio),
        derivative@ == derivative_at(y@, old(velocity)@, radius, aspect_ratio),
        negatable(final(velocity)@),
{
    let n: usize = y.len();
    let whole: usize = n - n % 2;
    let vertical: i128 = scale(radius, aspect_ratio);
    let mut derivative: Vec<i64> = Vec::with_capacity(n);
    let mut i: usize = 0;
    while i < n
        invariant
            n == y@.len(),
            n == velocity@.len(),
            n == old(velocity)@.len(),
            whole == paired(y@.len()),
            vertical == scaled(radius as int, aspect_ratio as int),
            -0x4000_0000_0000_0000_0000_0000_0000_0000 <= vertical
                <= 0x4000_0000_0000_0000_0000_0000_0000_0000,
            i <= n,
            negatable(old(velocity)@),
            derivative@.len() == i,
            forall|k: int|
                0 <= k < i ==> #[trigger] velocity@[k] == reflected(
                    y@,
                    old(velocity)@,
                    radius,
                    aspect_ratio,
                )[k],
            forall|k: int| i <= k < n ==> #[trigger] velocity@[k] == old(velocity)@[k],
            forall|k: int|
                0 <= k < i ==> #[trigger] derivative@[k] == derivative_at(
                    y@,
                    old(velocity)@,
                    radius,
                    aspect_ratio,
                )[k],
        decreases n - i,
    {
        if i < whole {
            let inset: i128 = if i % 2 == 0 {
                radius as i128
            } else {
                vertical
            };
            if touches_wall(y[i], inset) {
                let turned: i64 = -velocity[i];
                velocity.set(i, turned);
            }
            derivative.push(velocity[i]);
        } else {
            derivative.push(0);
        }
        i += 1;
    }
    assert(velocity@ =~= reflected(y@, old(velocity)@, radius, aspect_ratio));
    assert(derivative@ =~= derivative_at(y@, old(velocity)@, radius, aspect_ratio));
    derivative
}

/// Why an integrator could not be built or could not take a step.
#[derive(Clone, Copy, Debug, PartialEq, Eq, Structural)]
pub enum IntegrationError {
    /// A bound on the step size was zero or negative.
    InvalidStep,
    /// The step would carry the time or a coordinate out of the machine's range.
    OutOfRange,
}

/// The step size that lies midway between the two bounds.
pub open spec fn midpoint(min_dt: i64, max_dt: i64) -> int {
    (min_dt + max_dt) / 2
}

/// The state one explicit Euler step of size `dt` after `y`, given the derivative `dy`.
pub open spec fn advanced(y: Seq<i64>, dy: Seq<i64>, dt: i64) -> Seq<int> {
    Seq::new(y.len(), |i: int| y[i] + scaled(dy[i] as int, dt as int))
}

/// Every entry fits the machine word.
pub open spec fn representable(s: Seq<int>) -> bool {
    forall|i: int| 0 <= i < s.len() ==> i64::MIN <= #[trigger] s[i] <= i64::MAX
}

/// A fixed-step explicit Euler integrator over a flattened particle state.
pub struct Integrator {
    /// The time of the state that the next step starts from.
    pub time: i64,
    /// The state that the next step starts from.
    pub state: Vec<i64>,
    /// The step size.
    pub dt: i64,
}

impl Integrator {
    /// The step size is positive.
    pub open spec fn wf(&self) -> bool {
        self.dt > 0
    }

    /// Whether the next step stays within the machine's range, given the
    /// velocities it starts with.
    pub open spec fn can_step(&self, velocity: Seq<i64>, radius: i64, aspect_ratio: i64) -> bool {
        self.time + self.dt <= i64::MAX && representable(
            advanced(
                self.state@,
                derivative_at(self.state@, velocity, radius, aspect_ratio),
                self.dt,
            ),
        )
    }

    /// Builds an integrator that starts at `time` from `state` and steps by the
    /// midpoint of the two bounds. Fails exactly when a bound is not positive.
    pub fn new(time: i64, state: Vec<i64>, min_dt: i64, max_dt: i64) -> (built: Result<
        Integrator,
        IntegrationError,
    >)
        ensures
            match built {
                Ok(solver) => min_dt > 0 && max_dt > 0 && solver.wf() && solver.time == time
                    && solver.state@ == state@ && solver.dt == midpoint(min_dt, max_dt),
                Err(e) => e == IntegrationError::InvalidStep && (min_dt <= 0 || max_dt <= 0),
            },
    {
        if min_dt <= 0 || max_dt <= 0 {
            return Err(IntegrationError::InvalidStep);
        }
        let sum: i128 = min_dt as i128 + max_dt as i128;
        let dt: i64 = (sum / 2) as i64;
        Ok(Integrator { time, state, dt })
    }

    /// Takes one step: hands out the state the step started from with its time,
    /// turns around in `velocity` the components that touch a wall there, and
    /// moves on by the step size. Fails, changing nothing, exactly when the step
    /// would leave the machine's range.
    pub fn next(&mut self, velocity: &mut Vec<i64>, radius: i64, aspect_ratio: i64) -> (step:
        Result<Snapshot, IntegrationError>)
        requires
            old(self).wf(),
            old(self).state@.len() == old(velocity)@.len(),
            negatable(old(velocity)@),
        ensures
            final(self).wf(),
            final(self).dt == old(self).dt,
            negatable(final(velocity)@),
            final(velocity)@.len() == old(velocity)@.len(),
            final(self).state@.len() == old(self).state@.len(),
            match step {
                Ok(published) => {
                    &&& old(self).can_step(old(velocity)@, radius, aspect_ratio)
                    &&& published@ == (old(self).time, old(self).state@)
                    &&& final(velocity)@ == reflected(
                        old(self).state@,
                        old(velocity)@,
                        radius,
                        aspect_ratio,
                    )
                    &&& final(self).time == old(self).time + old(self).dt
                    &&& final(self).state@.map_values(|x: i64| x as int) == advanced(
                        old(self).state@,
                        derivative_at(old(self).state@, old(velocity)@, radius, aspect_ratio),
                        old(self).dt,
                    )
                },
                Err(e) => {
                    &&& e == IntegrationError::OutOfRange
                    &&& !old(self).can_step(old(velocity)@, radius, aspect_ratio)
                    &&& final(self).time == old(self).time
                    &&& final(self).state@ == old(self).state@
                    &&& final(velocity)@ == old(velocity)@
                },
            },
    {
        if self.time > i64::MAX - self.dt {
            return Err(IntegrationError::OutOfRange);
        }
        let mut turned: Vec<i64> = copy_of(velocity);
        let dy: Vec<i64> = particle_derivative(&self.state, &mut turned, radius, aspect_ratio);
        let n: usize = self.state.len();
        let mut moved: Vec<i64> = Vec::with_capacity(n);
        let ghost target = advanced(self.state@, dy@, self.dt);
        let mut i: usize = 0;
        while i < n
            invariant
                n == self.state@.len(),
                n == dy@.len(),
                i <= n,
                moved@.len() == i,
                target == advanced(self.state@, dy@, self.dt),
                self.dt == old(self).dt,
                self.dt > 0,
                self.time == old(self).time,
                self.state@ == old(self).state@,
                self.time + self.dt <= i64::MAX,
                velocity@ == old(velocity)@,
                negatable(old(velocity)@),
                negatable(turned@),
                turned@ == reflected(old(self).state@, old(velocity)@, radius, aspect_ratio),
                dy@ == derivative_at(old(self).state@, old(velocity)@, radius, aspect_ratio),
                forall|k: int| 0 <= k < i ==> (#[trigger] moved@[k]) as int == target[k],
            decreases n - i,
        {
            let wide: i128 = self.state[i] as i128 + scale(dy[i], self.dt);
            if wide < -0x8000_0000_0000_0000 || wide > 0x7fff_ffff_ffff_ffff {
                assert(target[i as int] == wide);
                return Err(IntegrationError::OutOfRange);
            }
            moved.push(wide as i64);
            i += 1;
        }
        assert(moved@.map_values(|x: i64| x as int) =~= target);
        std::mem::swap(&mut self.state, &mut moved);
        let published = Snapshot { time: self.time, state: moved };
        self.time = self.time + self.dt;
        *velocity = turned;
        Ok(published)
    }
}

} // verus!
