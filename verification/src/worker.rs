use crate::integrator::advanced;
use crate::integrator::derivative_at;
use crate::integrator::reflected;
use crate::integrator::IntegrationError;
use crate::integrator::Integrator;
use crate::queue::SnapshotQueue;
use crate::snapshot::copy_of;
use crate::snapshot::entries;
use crate::snapshot::zeros;
use crate::snapshot::Snapshot;
use crate::spawn::acceptable;
use crate::spawn::geometry_supported;
use crate::spawn::lemma_well_spaced_push;
use crate::spawn::well_spaced;
use crate::spawn::Candidate;
use crate::spawn::SpawnAttempt;
use crate::spawn::MAX_REJECTIONS;
use crate::spawn::MAX_VELOCITY;
use vstd::prelude::*;

verus! {

/// The step of simulated time between two snapshots, a tenth of a second.
pub const STEP: i64 = 100_000;

/// Queue depth above which an interactive worker pauses.
pub const DISPLAY_DEPTH: usize = 100;

/// Queue depth above which an offline worker pauses.
pub const HEADLESS_DEPTH: usize = 2;

/// A request from the controller to the worker.
#[derive(Clone, Copy, Debug, PartialEq, Eq, Structural)]
pub enum Command {
    /// Replace the geometry and restart at the state recovered for `time`.
    Reset { time: i64, radius: i64, aspect_ratio: i64 },
    /// Place `count` new particles, all or none.
    Spawn { count: usize },
    /// Remove the last `count` particles, or all of them if there are fewer.
    Pop { count: usize },
}

impl Command {
    /// Whether the geometry that the command carries, if any, is supported.
    pub open spec fn supported(self) -> bool {
        match self {
            Command::Reset { time, radius, aspect_ratio } => geometry_supported(
                radius,
                aspect_ratio,
            ),
            _ => true,
        }
    }

    /// The time that the recovered state may not be later than: the time that a
    /// reset names, and otherwise the worker's own time `now`.
    pub open spec fn horizon(self, now: i64) -> i64 {
        match self {
            Command::Reset { time, radius, aspect_ratio } => time,
            _ => now,
        }
    }
}

/// What the worker's caller has to do after the worker has looked at a command.
#[derive(Clone, Copy, Debug, PartialEq, Eq, Structural)]
pub enum Outcome {
    /// The command is finished; the value is the response owed to the controller.
    Done(bool),
    /// A spawn is under way and needs another candidate.
    NeedCandidate,
    /// The queue could not be emptied in one go; the same command is to be handed in again.
    Busy,
}

/// Queue depth above which the worker pauses until the consumer has caught up.
pub open spec fn park_threshold(display: bool) -> int {
    if display {
        DISPLAY_DEPTH as int
    } else {
        HEADLESS_DEPTH as int
    }
}

/// Decides whether the worker pauses after publishing, given the queue depth it observed.
pub fn should_park(display: bool, depth: usize) -> (park: bool)
    ensures
        park == (depth > park_threshold(display)),
{
    if display {
        depth > DISPLAY_DEPTH
    } else {
        depth > HEADLESS_DEPTH
    }
}

/// Every component is at most the largest speed in magnitude.
pub open spec fn slow(v: Seq<i64>) -> bool {
    forall|i: int| 0 <= i < v.len() ==> -MAX_VELOCITY <= #[trigger] v[i] <= MAX_VELOCITY
}

/// Turning velocity components around at the walls keeps them slow.
pub proof fn lemma_reflected_slow(y: Seq<i64>, v: Seq<i64>, radius: i64, aspect_ratio: i64)
    requires
        slow(v),
    ensures
        slow(reflected(y, v, radius, aspect_ratio)),
        reflected(y, v, radius, aspect_ratio).len() == v.len(),
{
    let r = reflected(y, v, radius, aspect_ratio);
    assert forall|i: int| 0 <= i < r.len() implies -MAX_VELOCITY <= #[trigger] r[i]
        <= MAX_VELOCITY by {
        assert(-MAX_VELOCITY <= v[i] <= MAX_VELOCITY);
    }
}

/// Whether a queued entry can serve as the state to restart from: it is not later
/// than `horizon` and has `dim` coordinates.
pub open spec fn qualifies(entry: (i64, Seq<i64>), horizon: i64, dim: int) -> bool {
    entry.0 <= horizon && entry.1.len() == dim
}

/// The state to restart from: the last of `backlog` that qualifies, or, if none
/// does, `dim` zeros at `fallback_time`.
pub open spec fn recovered(
    backlog: Seq<(i64, Seq<i64>)>,
    horizon: i64,
    dim: int,
    fallback_time: i64,
) -> (i64, Seq<i64>)
    decreases backlog.len(),
{
    if backlog.len() == 0 {
        (fallback_time, Seq::new(dim as nat, |i: int| 0i64))
    } else if qualifies(backlog.last(), horizon, dim) {
        backlog.last()
    } else {
        recovered(backlog.drop_last(), horizon, dim, fallback_time)
    }
}

/// The state to restart from always has `dim` coordinates.
pub proof fn lemma_recovered_dim(
    backlog: Seq<(i64, Seq<i64>)>,
    horizon: i64,
    dim: int,
    fallback_time: i64,
)
    requires
        0 <= dim,
    ensures
        recovered(backlog, horizon, dim, fallback_time).1.len() == dim,
    decreases backlog.len(),
{
    if backlog.len() > 0 && !qualifies(backlog.last(), horizon, dim) {
        lemma_recovered_dim(backlog.drop_last(), horizon, dim, fallback_time);
    }
}

/// Picks the state to restart from out of `backlog`, and empties `backlog`.
pub fn recover(backlog: &mut Vec<Snapshot>, horizon: i64, dim: usize, fallback_time: i64) -> (start:
    Snapshot)
    ensures
        start@ == recovered(entries(old(backlog)@), horizon, dim as int, fallback_time),
        final(backlog)@.len() == 0,
{
    let ghost goal = recovered(entries(old(backlog)@), horizon, dim as int, fallback_time);
    loop
        invariant
            goal == recovered(entries(old(backlog)@), horizon, dim as int, fallback_time),
            goal == recovered(entries(backlog@), horizon, dim as int, fallback_time),
        decreases backlog@.len(),
    {
        let ghost before = backlog@;
        match backlog.pop() {
            Some(entry) => {
                assert(entries(before).last() == entry@);
                assert(entries(before).drop_last() =~= entries(backlog@));
                if entry.time <= horizon && entry.state.len() == dim {
                    backlog.clear();
                    return entry;
                }
            },
            None => {
                let start = Snapshot { time: fallback_time, state: zeros(dim) };
                assert(start@.1 =~= goal.1);
                return start;
            },
        }
    }
}

/// The coordinates of the placed candidates, flattened in the order of placement.
pub open spec fn positions_of(placed: Seq<Candidate>) -> Seq<i64> {
    Seq::new(
        2 * placed.len(),
        |i: int|
            if i % 2 == 0 {
                placed[i / 2].x
            } else {
                placed[i / 2].y
            },
    )
}

/// The velocities of the placed candidates, flattened in the order of placement.
pub open spec fn velocities_of(placed: Seq<Candidate>) -> Seq<i64> {
    Seq::new(
        2 * placed.len(),
        |i: int|
            if i % 2 == 0 {
                placed[i / 2].vx
            } else {
                placed[i / 2].vy
            },
    )
}

/// The flattened velocities of slow candidates are slow.
pub proof fn lemma_velocities_of_slow(placed: Seq<Candidate>)
    requires
        forall|j: int| 0 <= j < placed.len() ==> (#[trigger] placed[j]).slow(),
    ensures
        slow(velocities_of(placed)),
{
    let v = velocities_of(placed);
    assert forall|i: int| 0 <= i < v.len() implies -MAX_VELOCITY <= #[trigger] v[i]
        <= MAX_VELOCITY by {
        assert(placed[i / 2].slow());
    }
}

/// Appends the coordinates of `placed` to `state` and their velocities to `velocity`.
pub fn append_placed(state: &mut Vec<i64>, velocity: &mut Vec<i64>, placed: &Vec<Candidate>)
    ensures
        final(state)@ == old(state)@ + positions_of(placed@),
        final(velocity)@ == old(velocity)@ + velocities_of(placed@),
{
    let mut j: usize = 0;
    while j < placed.len()
        invariant
            j <= placed@.len(),
            state@ == old(state)@ + positions_of(placed@.take(j as int)),
            velocity@ == old(velocity)@ + velocities_of(placed@.take(j as int)),
        decreases placed@.len() - j,
    {
        let c: Candidate = placed[j];
        let ghost state_before = state@;
        let ghost velocity_before = velocity@;
        state.push(c.x);
        state.push(c.y);
        velocity.push(c.vx);
        velocity.push(c.vy);
        assert(positions_of(placed@.take(j + 1)) =~= positions_of(placed@.take(j as int)).push(
            c.x,
        ).push(c.y));
        assert(velocities_of(placed@.take(j + 1)) =~= velocities_of(placed@.take(j as int)).push(
            c.vx,
        ).push(c.vy));
        assert(state@ =~= old(state)@ + positions_of(placed@.take(j + 1)));
        assert(velocity@ =~= old(velocity)@ + velocities_of(placed@.take(j + 1)));
        j += 1;
    }
    assert(placed@.take(placed@.len() as int) == placed@);
}

/// The authoritative state of the simulation: the integrator with the positions,
/// the velocities beside it, and the geometry of the box.
pub struct Worker {
    /// Whether the worker feeds a display, which tolerates a deeper queue.
    pub display: bool,
    /// The time of the snapshot published last.
    pub time: i64,
    pub radius: i64,
    pub aspect_ratio: i64,
    pub num_particles: usize,
    /// The velocity of each particle, flattened like the positions.
    pub velocities: Vec<i64>,
    pub solver: Integrator,
    /// Entries taken from the queue for a command that is not finished yet.
    pub backlog: Vec<Snapshot>,
    /// The spawn under way, if any.
    pub pending: Option<SpawnAttempt>,
}

impl Worker {
    /// Positions and velocities have two entries for each particle, the velocities
    /// are slow, the geometry is supported, the snapshot published last is not
    /// later than the state held, and a spawn under way still needs candidates and
    /// has placed its candidates well spaced.
    pub open spec fn wf(&self) -> bool {
        &&& self.solver.wf()
        &&& self.solver.dt == STEP
        &&& self.time <= self.solver.time
        &&& self.solver.state@.len() == 2 * self.num_particles
        &&& self.velocities@.len() == 2 * self.num_particles
        &&& slow(self.velocities@)
        &&& geometry_supported(self.radius, self.aspect_ratio)
        &&& match self.pending {
            Some(attempt) => attempt.wf() && attempt.sampling() && well_spaced(
                self.solver.state@,
                attempt.placed@,
                self.radius,
                self.aspect_ratio,
            ),
            None => true,
        }
    }

    /// Whether the worker is integrating, with no spawn under way.
    pub open spec fn integrating(&self) -> bool {
        self.pending is None
    }

    /// Whether `other` has the same geometry, display mode and particle count.
    pub open spec fn same_setup(&self, other: &Worker) -> bool {
        &&& self.display == other.display
        &&& self.radius == other.radius
        &&& self.aspect_ratio == other.aspect_ratio
        &&& self.num_particles == other.num_particles
    }

    /// Whether `other` has the same positions, velocities and times.
    pub open spec fn same_motion(&self, other: &Worker) -> bool {
        &&& self.time == other.time
        &&& self.velocities@ == other.velocities@
        &&& self.solver.time == other.solver.time
        &&& self.solver.state@ == other.solver.state@
        &&& self.solver.dt == other.solver.dt
    }

    /// A worker without particles that starts at `time`.
    pub fn new(display: bool, time: i64, radius: i64, aspect_ratio: i64) -> (built: Result<
        Worker,
        IntegrationError,
    >)
        requires
            geometry_supported(radius, aspect_ratio),
        ensures
            match built {
                Ok(w) => {
                    &&& w.wf()
                    &&& w.integrating()
                    &&& w.display == display
                    &&& w.time == time
                    &&& w.radius == radius
                    &&& w.aspect_ratio == aspect_ratio
                    &&& w.num_particles == 0
                    &&& w.solver.time == time
                    &&& w.backlog@.len() == 0
                },
                Err(_) => false,
            },
    {
        match Integrator::new(time, Vec::new(), STEP, STEP) {
            Ok(solver) => Ok(
                Worker {
                    display,
                    time,
                    radius,
                    aspect_ratio,
                    num_particles: 0,
                    velocities: Vec::new(),
                    solver,
                    backlog: Vec::new(),
                    pending: None,
                },
            ),
            Err(e) => Err(e),
        }
    }

    /// One turn of the integrating loop. While the controller has the reset flag up
    /// (`paused`), nothing is computed or published. Otherwise the integrator takes
    /// one step, the state it started from is published, and the depth of the queue
    /// after that is returned. A step that would leave the machine's range fails and
    /// changes nothing.
    pub fn advance(&mut self, queue: &mut SnapshotQueue, paused: bool) -> (turn: Result<
        Option<usize>,
        IntegrationError,
    >)
        requires
            old(self).wf(),
            old(self).integrating(),
        ensures
            final(self).wf(),
            final(self).integrating(),
            final(self).same_setup(old(self)),
            final(self).backlog@ == old(self).backlog@,
            match turn {
                Ok(None) => {
                    &&& paused
                    &&& final(self).same_motion(old(self))
                    &&& final(queue)@ == old(queue)@
                },
                Ok(Some(depth)) => {
                    &&& !paused
                    &&& old(self).solver.can_step(
                        old(self).velocities@,
                        old(self).radius,
                        old(self).aspect_ratio,
                    )
                    &&& final(queue)@ == old(queue)@.push(
                        (old(self).solver.time, old(self).solver.state@),
                    )
                    &&& depth == final(queue)@.len()
                    &&& final(self).time == old(self).solver.time
                    &&& final(self).time >= old(self).time
                    &&& final(self).velocities@ == reflected(
                        old(self).solver.state@,
                        old(self).velocities@,
                        old(self).radius,
                        old(self).aspect_ratio,
                    )
                    &&& final(self).solver.time == old(self).solver.time + STEP
                    &&& final(self).solver.state@.map_values(|x: i64| x as int) == advanced(
                        old(self).solver.state@,
                        derivative_at(
                            old(self).solver.state@,
                            old(self).velocities@,
                            old(self).radius,
                            old(self).aspect_ratio,
                        ),
                        STEP,
                    )
                },
                Err(e) => {
                    &&& !paused
                    &&& e == IntegrationError::OutOfRange
                    &&& !old(self).solver.can_step(
                        old(self).velocities@,
                        old(self).radius,
                        old(self).aspect_ratio,
                    )
                    &&& final(self).same_motion(old(self))
                    &&& final(queue)@ == old(queue)@
                },
            },
    {
        if paused {
            return Ok(None);
        }
        proof {
            lemma_reflected_slow(
                self.solver.state@,
                self.velocities@,
                self.radius,
                self.aspect_ratio,
            );
            assert forall|i: int| 0 <= i < self.velocities@.len() implies #[trigger] self.velocities@[i]
                > i64::MIN by {
                assert(-MAX_VELOCITY <= self.velocities@[i]);
            }
        }
        match self.solver.next(&mut self.velocities, self.radius, self.aspect_ratio) {
            Ok(published) => {
                self.time = published.time;
                queue.push(published);
                Ok(Some(queue.len()))
            },
            Err(e) => Err(e),
        }
    }

    /// Whether the spawn under way accepts the candidate `c`.
    pub open spec fn accepts(&self, c: Candidate) -> bool {
        acceptable(
            self.solver.state@,
            self.pending.unwrap().placed@,
            c,
            self.radius,
            self.aspect_ratio,
        )
    }

    /// The state that a command handed in now would restart from, given what is queued.
    pub open spec fn start_for(&self, queued: Seq<(i64, Seq<i64>)>, command: Command) -> (
        i64,
        Seq<i64>,
    ) {
        recovered(
            entries(self.backlog@) + queued,
            command.horizon(self.time),
            2 * self.num_particles,
            self.time,
        )
    }

    /// Whether `after` is this worker restarted at the first `count` particles of
    /// `start` under the given geometry, with `published` as the whole queue.
    pub open spec fn restarted(
        &self,
        after: &Worker,
        published: Seq<(i64, Seq<i64>)>,
        start: (i64, Seq<i64>),
        radius: i64,
        aspect_ratio: i64,
        count: int,
    ) -> bool {
        &&& after.display == self.display
        &&& after.radius == radius
        &&& after.aspect_ratio == aspect_ratio
        &&& after.num_particles == count
        &&& after.time == start.0
        &&& after.solver.time == start.0
        &&& after.solver.state@ == start.1.take(2 * count)
        &&& after.velocities@ == self.velocities@.take(2 * count)
        &&& after.integrating()
        &&& after.backlog@.len() == 0
        &&& published == seq![(start.0, after.solver.state@)]
    }

    /// Whether `after` is this worker waiting for the first candidate of a spawn of
    /// `count` particles, restarted at `start` with nothing published yet.
    pub open spec fn placing(
        &self,
        after: &Worker,
        published: Seq<(i64, Seq<i64>)>,
        start: (i64, Seq<i64>),
        count: usize,
    ) -> bool {
        &&& after.same_setup(self)
        &&& after.time == start.0
        &&& after.solver.time == start.0
        &&& after.solver.state@ == start.1
        &&& after.velocities@ == self.velocities@
        &&& after.backlog@.len() == 0
        &&& published.len() == 0
        &&& match after.pending {
            Some(attempt) => attempt.wanted == count && attempt.placed@.len() == 0
                && attempt.rejected == 0,
            None => false,
        }
    }

    /// Restarts the integrator at `start` and publishes that state as the only
    /// entry of the emptied queue.
    fn restart(&mut self, queue: &mut SnapshotQueue, start: Snapshot)
        requires
            old(queue)@.len() == 0,
        ensures
            final(self).display == old(self).display,
            final(self).radius == old(self).radius,
            final(self).aspect_ratio == old(self).aspect_ratio,
            final(self).num_particles == old(self).num_particles,
            final(self).velocities@ == old(self).velocities@,
            final(self).backlog@ == old(self).backlog@,
            final(self).pending == old(self).pending,
            final(self).time == start.time,
            final(self).solver.time == start.time,
            final(self).solver.state@ == start.state@,
            final(self).solver.dt == STEP,
            final(queue)@ == seq![(start.time, start.state@)],
    {
        let published = start.duplicate();
        self.time = start.time;
        self.solver = Integrator { time: start.time, state: start.state, dt: STEP };
        queue.push(published);
        assert(queue@ =~= seq![(start.time, start.state@)]);
    }

    /// Looks at one command. The queue is emptied first; if that cannot be done in
    /// one go, nothing else happens and the answer is `Busy`, which comes only
    /// with entries left in the queue: a command that finds the queue empty is
    /// always carried out. Otherwise the state
    /// to restart from is recovered from what was queued. A reset takes over the new
    /// geometry, a pop keeps the first particles, and both restart the integrator
    /// and publish the state they restart from. A spawn of no particles does the
    /// same with nothing changed; any other spawn restarts the integrator and asks
    /// for the first candidate.
    pub fn handle_command(&mut self, queue: &mut SnapshotQueue, command: Command) -> (outcome:
        Outcome)
        requires
            old(self).wf(),
            old(self).integrating(),
            command.supported(),
        ensures
            final(self).wf(),
            match outcome {
                Outcome::Busy => {
                    &&& final(queue)@.len() > 0
                    &&& old(queue)@.len() > 0
                    &&& final(self).same_setup(old(self))
                    &&& final(self).same_motion(old(self))
                    &&& final(self).integrating()
                    &&& entries(final(self).backlog@) + final(queue)@ == entries(
                        old(self).backlog@,
                    ) + old(queue)@
                },
                Outcome::Done(response) => {
                    &&& response
                    &&& match command {
                        Command::Reset { time, radius, aspect_ratio } => old(self).restarted(
                            final(self),
                            final(queue)@,
                            old(self).start_for(old(queue)@, command),
                            radius,
                            aspect_ratio,
                            old(self).num_particles as int,
                        ),
                        Command::Pop { count } => old(self).restarted(
                            final(self),
                            final(queue)@,
                            old(self).start_for(old(queue)@, command),
                            old(self).radius,
                            old(self).aspect_ratio,
                            if count >= old(self).num_particles {
                                0
                            } else {
                                old(self).num_particles - count
                            },
                        ),
                        Command::Spawn { count } => count == 0 && old(self).restarted(
                            final(self),
                            final(queue)@,
                            old(self).start_for(old(queue)@, command),
                            old(self).radius,
                            old(self).aspect_ratio,
                            old(self).num_particles as int,
                        ),
                    }
                },
                Outcome::NeedCandidate => match command {
                    Command::Spawn { count } => count > 0 && old(self).placing(
                        final(self),
                        final(queue)@,
                        old(self).start_for(old(queue)@, command),
                        count,
                    ),
                    _ => false,
                },
            },
    {
        let ghost all = entries(self.backlog@) + queue@;
        if !queue.drain_into(&mut self.backlog) {
            return Outcome::Busy;
        }
        assert(entries(self.backlog@) =~= all);
        let horizon: i64 = match command {
            Command::Reset { time, radius, aspect_ratio } => time,
            _ => self.time,
        };
        let dim: usize = self.solver.state.len();
        let mut start: Snapshot = recover(&mut self.backlog, horizon, dim, self.time);
        proof {
            lemma_recovered_dim(all, horizon, dim as int, self.time);
        }
        match command {
            Command::Reset { time, radius, aspect_ratio } => {
                self.radius = radius;
                self.aspect_ratio = aspect_ratio;
                assert(start.state@.take(dim as int) =~= start.state@);
                assert(self.velocities@.take(dim as int) =~= self.velocities@);
                self.restart(queue, start);
                Outcome::Done(true)
            },
            Command::Pop { count } => {
                let kept: usize = if count >= self.num_particles {
                    0
                } else {
                    self.num_particles - count
                };
                self.num_particles = kept;
                self.velocities.truncate(2 * kept);
                start.state.truncate(2 * kept);
                self.restart(queue, start);
                Outcome::Done(true)
            },
            Command::Spawn { count } => {
                if count == 0 {
                    assert(start.state@.take(dim as int) =~= start.state@);
                    assert(self.velocities@.take(dim as int) =~= self.velocities@);
                    self.restart(queue, start);
                    Outcome::Done(true)
                } else {
                    self.time = start.time;
                    self.solver = Integrator { time: start.time, state: start.state, dt: STEP };
                    self.pending = Some(SpawnAttempt::new(count));
                    Outcome::NeedCandidate
                }
            },
        }
    }

    /// Hands one candidate to the spawn under way. While the attempt neither has
    /// placed all its particles nor has been given up, the answer asks for another
    /// candidate and nothing but the attempt changes. Once the last particle is
    /// placed, all of them join the state with their velocities, the integrator
    /// restarts there, and the response is success. Once too many candidates in a
    /// row were rejected, none of them joins, and the response is failure. Either
    /// way the state restarted from is published.
    pub fn offer(&mut self, queue: &mut SnapshotQueue, c: Candidate) -> (outcome: Outcome)
        requires
            old(self).wf(),
            !old(self).integrating(),
            c.slow(),
        ensures
            final(self).wf(),
            final(self).display == old(self).display,
            final(self).radius == old(self).radius,
            final(self).aspect_ratio == old(self).aspect_ratio,
            final(self).time == old(self).time,
            final(self).solver.time == old(self).solver.time,
            final(self).backlog@ == old(self).backlog@,
            match outcome {
                Outcome::NeedCandidate => {
                    &&& final(self).same_setup(old(self))
                    &&& final(self).same_motion(old(self))
                    &&& final(queue)@ == old(queue)@
                    &&& match final(self).pending {
                        Some(attempt) => {
                            &&& attempt.wanted == old(self).pending.unwrap().wanted
                            &&& if old(self).accepts(c) {
                                attempt.placed@ == old(self).pending.unwrap().placed@.push(c)
                                    && attempt.rejected == 0
                            } else {
                                attempt.placed@ == old(self).pending.unwrap().placed@
                                    && attempt.rejected == old(self).pending.unwrap().rejected + 1
                            }
                        },
                        None => false,
                    }
                },
                Outcome::Done(response) => {
                    &&& final(self).integrating()
                    &&& final(queue)@ == old(queue)@.push(
                        (final(self).time, final(self).solver.state@),
                    )
                    &&& if response {
                        &&& old(self).accepts(c)
                        &&& old(self).pending.unwrap().placed@.len() + 1 == old(
                            self,
                        ).pending.unwrap().wanted
                        &&& final(self).num_particles == old(self).num_particles + old(
                            self,
                        ).pending.unwrap().wanted
                        &&& final(self).solver.state@ == old(self).solver.state@ + positions_of(
                            old(self).pending.unwrap().placed@.push(c),
                        )
                        &&& final(self).velocities@ == old(self).velocities@ + velocities_of(
                            old(self).pending.unwrap().placed@.push(c),
                        )
                        &&& well_spaced(
                            old(self).solver.state@,
                            old(self).pending.unwrap().placed@.push(c),
                            old(self).radius,
                            old(self).aspect_ratio,
                        )
                    } else {
                        &&& !old(self).accepts(c)
                        &&& old(self).pending.unwrap().rejected + 1 == MAX_REJECTIONS
                        &&& final(self).same_setup(old(self))
                        &&& final(self).same_motion(old(self))
                    }
                },
                Outcome::Busy => false,
            },
    {
        let mut attempt: SpawnAttempt = self.pending.take().unwrap();
        proof {
            if acceptable(self.solver.state@, attempt.placed@, c, self.radius, self.aspect_ratio) {
                lemma_well_spaced_push(
                    self.solver.state@,
                    attempt.placed@,
                    c,
                    self.radius,
                    self.aspect_ratio,
                );
            }
        }
        attempt.offer(&self.solver.state, self.radius, self.aspect_ratio, c);
        if attempt.is_sampling() {
            self.pending = Some(attempt);
            return Outcome::NeedCandidate;
        }
        let placed_all: bool = attempt.is_complete();
        if placed_all {
            append_placed(&mut self.solver.state, &mut self.velocities, &attempt.placed);
            proof {
                lemma_velocities_of_slow(attempt.placed@);
                assert(positions_of(attempt.placed@).len() == 2 * attempt.wanted);
            }
            self.num_particles = self.solver.state.len() / 2;
        }
        let published = Snapshot { time: self.time, state: copy_of(&self.solver.state) };
        queue.push(published);
        Outcome::Done(placed_all)
    }
}

} // verus!
