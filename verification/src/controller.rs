use crate::fixed::ONE;
use crate::interp::blend;
use crate::interp::blend_states;
use crate::queue::SnapshotQueue;
use crate::queue::Stolen;
use crate::snapshot::entries;
use crate::snapshot::Snapshot;
use crate::spawn::geometry_supported;
use crate::worker::recover;
use crate::worker::recovered;
use crate::worker::Command;
use vstd::prelude::*;

verus! {

/// Why the controller could not carry out an operation.
#[derive(Clone, Copy, Debug, PartialEq, Eq, Structural)]
pub enum PhysicsError {
    /// The worker has hung up: no answer came back for a command.
    WorkerUnavailable,
}

/// One particle as the renderer draws it. Lengths and colour channels are in
/// millionths; the colour is white.
#[derive(Clone, Copy, Debug, PartialEq)]
pub struct Instance {
    pub position: [i64; 2],
    pub radius: i64,
    pub color: [i64; 3],
}

/// Whether `instance` is the white particle of the given radius at `(x, y)`.
pub open spec fn shows(instance: Instance, x: i64, y: i64, radius: i64) -> bool {
    &&& instance.position@ == seq![x, y]
    &&& instance.radius == radius
    &&& instance.color@ == seq![ONE, ONE, ONE]
}

/// Whether `instances` are the whole particles of `state`, in order.
pub open spec fn rendered(instances: Seq<Instance>, state: Seq<i64>, radius: i64) -> bool {
    &&& instances.len() == state.len() / 2
    &&& forall|p: int|
        0 <= p < instances.len() ==> shows(
            #[trigger] instances[p],
            state[2 * p],
            state[2 * p + 1],
            radius,
        )
}

/// The particle count after `n` particles are removed from `count`.
pub open spec fn popped(count: int, n: int) -> int {
    if n >= count {
        0
    } else {
        count - n
    }
}

/// How many entries at the head of the queue are older than `t`.
pub open spec fn first_due(queued: Seq<(i64, Seq<i64>)>, t: i64) -> int
    decreases queued.len(),
{
    if queued.len() == 0 || queued[0].0 >= t {
        0
    } else {
        1 + first_due(queued.drop_first(), t)
    }
}

/// The count of older entries at the head is at most the length of the queue, and
/// the entry behind them, if there is one, is not older than `t`.
pub proof fn lemma_first_due_bounds(queued: Seq<(i64, Seq<i64>)>, t: i64)
    ensures
        0 <= first_due(queued, t) <= queued.len(),
        first_due(queued, t) < queued.len() ==> queued[first_due(queued, t)].0 >= t,
        forall|k: int| 0 <= k < first_due(queued, t) ==> (#[trigger] queued[k]).0 < t,
    decreases queued.len(),
{
    if queued.len() > 0 && queued[0].0 < t {
        let rest = queued.drop_first();
        lemma_first_due_bounds(rest, t);
        assert forall|k: int| 0 <= k < first_due(queued, t) implies (#[trigger] queued[k]).0
            < t by {
            if k > 0 {
                assert(queued[k] == rest[k - 1]);
            }
        }
        if first_due(queued, t) < queued.len() {
            assert(queued[first_due(queued, t)] == rest[first_due(rest, t)]);
        }
    }
}

/// The state shown for `t` once the first entry at or after `t` has arrived:
/// that entry as it is when nothing older was seen, and otherwise its blend with
/// the last of the older ones.
pub open spec fn shown_for(older: Seq<(i64, Seq<i64>)>, target: (i64, Seq<i64>), t: i64) -> Seq<
    i64,
> {
    if older.len() == 0 {
        target.1
    } else {
        blend(older.last(), target, t)
    }
}

/// The controller's side of the simulation: the geometry and particle count it
/// believes in, and the snapshots it has taken from the queue but not used up.
pub struct Physics {
    /// Whether the simulation feeds a display.
    pub display: bool,
    /// Entries older than the time asked for, oldest first.
    pub scratchpad: Vec<Snapshot>,
    /// Entries taken from the queue for a reset that is not finished yet.
    pub backlog: Vec<Snapshot>,
    pub time: i64,
    pub radius: i64,
    pub aspect_ratio: i64,
    pub num_particles: usize,
}

impl Physics {
    /// The geometry is supported, and a state of all the particles fits a vector.
    pub open spec fn wf(&self) -> bool {
        &&& geometry_supported(self.radius, self.aspect_ratio)
        &&& 2 * self.num_particles <= usize::MAX
    }

    /// Whether `other` has the same geometry, time and particle count.
    pub open spec fn same_setup(&self, other: &Physics) -> bool {
        &&& self.display == other.display
        &&& self.time == other.time
        &&& self.radius == other.radius
        &&& self.aspect_ratio == other.aspect_ratio
        &&& self.num_particles == other.num_particles
    }

    /// A controller that knows of no particles.
    pub fn new(display: bool, time: i64, radius: i64, aspect_ratio: i64) -> (physics: Physics)
        requires
            geometry_supported(radius, aspect_ratio),
        ensures
            physics.wf(),
            physics.display == display,
            physics.time == time,
            physics.radius == radius,
            physics.aspect_ratio == aspect_ratio,
            physics.num_particles == 0,
            physics.scratchpad@.len() == 0,
            physics.backlog@.len() == 0,
    {
        Physics {
            display,
            scratchpad: Vec::new(),
            backlog: Vec::new(),
            time,
            radius,
            aspect_ratio,
            num_particles: 0,
        }
    }

    /// The particle count that the controller tracks.
    pub fn len(&self) -> (count: usize)
        ensures
            count == self.num_particles,
    {
        self.num_particles
    }

    /// The command that brings the particle count to `wanted`: a pop of the
    /// surplus, a spawn of what is missing, or none when the count is right.
    pub fn command_for(&self, wanted: usize) -> (command: Option<Command>)
        ensures
            wanted < self.num_particles ==> command == Some(
                Command::Pop { count: (self.num_particles - wanted) as usize },
            ),
            wanted > self.num_particles ==> command == Some(
                Command::Spawn { count: (wanted - self.num_particles) as usize },
            ),
            wanted == self.num_particles ==> command is None,
    {
        if wanted < self.num_particles {
            Some(Command::Pop { count: self.num_particles - wanted })
        } else if wanted > self.num_particles {
            Some(Command::Spawn { count: wanted - self.num_particles })
        } else {
            None
        }
    }

    /// The count that a control bound to the particle count shows after it asked
    /// for `wanted` particles while there were `before`: the count asked for,
    /// unless more were asked for and none came, in which case it falls back to
    /// the count there was.
    pub fn settled_count(&self, wanted: usize, before: usize) -> (shown: usize)
        ensures
            shown == if wanted > before && self.num_particles == before {
                before
            } else {
                wanted
            },
    {
        if wanted > before && self.num_particles == before {
            before
        } else {
            wanted
        }
    }

    /// Takes over a new aspect ratio. Returns whether it differs from the old one,
    /// in which case the caller owes the worker a reset.
    pub fn update_aspect_ratio(&mut self, aspect_ratio: i64) -> (changed: bool)
        requires
            old(self).wf(),
            geometry_supported(old(self).radius, aspect_ratio),
        ensures
            final(self).wf(),
            changed == (aspect_ratio != old(self).aspect_ratio),
            final(self).aspect_ratio == aspect_ratio,
            final(self).radius == old(self).radius,
            final(self).display == old(self).display,
            final(self).time == old(self).time,
            final(self).num_particles == old(self).num_particles,
            final(self).scratchpad@ == old(self).scratchpad@,
            final(self).backlog@ == old(self).backlog@,
    {
        if aspect_ratio != self.aspect_ratio {
            self.aspect_ratio = aspect_ratio;
            true
        } else {
            false
        }
    }

    /// Records the worker's answer to a spawn of `num` particles. The count grows
    /// by `num` exactly when the worker answered with success. Without an answer the
    /// worker is gone, and the count stays.
    pub fn spawn(&mut self, num: usize, response: Option<bool>) -> (spawned: Result<
        bool,
        PhysicsError,
    >)
        requires
            old(self).wf(),
            response == Some(true) ==> 2 * (old(self).num_particles + num) <= usize::MAX,
        ensures
            final(self).wf(),
            match response {
                Some(answer) => spawned == Ok::<bool, PhysicsError>(answer),
                None => spawned == Err::<bool, PhysicsError>(PhysicsError::WorkerUnavailable),
            },
            final(self).num_particles == if response == Some(true) {
                old(self).num_particles + num
            } else {
                old(self).num_particles as int
            },
            final(self).time == old(self).time,
            final(self).radius == old(self).radius,
            final(self).display == old(self).display,
            final(self).aspect_ratio == old(self).aspect_ratio,
            final(self).scratchpad@ == old(self).scratchpad@,
            final(self).backlog@ == old(self).backlog@,
    {
        match response {
            Some(true) => {
                self.num_particles = self.num_particles + num;
                Ok(true)
            },
            Some(false) => Ok(false),
            None => Err(PhysicsError::WorkerUnavailable),
        }
    }

    /// Records the worker's answer to a pop of `num` particles: with any answer the
    /// last `num` particles are gone, or all of them if there were fewer. Without
    /// an answer the worker is gone, and the count stays.
    pub fn pop(&mut self, num: usize, response: Option<bool>) -> (done: Result<(), PhysicsError>)
        requires
            old(self).wf(),
        ensures
            final(self).wf(),
            match response {
                Some(_) => done is Ok,
                None => done == Err::<(), PhysicsError>(PhysicsError::WorkerUnavailable),
            },
            final(self).num_particles == if response is Some {
                popped(old(self).num_particles as int, num as int)
            } else {
                old(self).num_particles as int
            },
            final(self).time == old(self).time,
            final(self).radius == old(self).radius,
            final(self).display == old(self).display,
            final(self).aspect_ratio == old(self).aspect_ratio,
            final(self).scratchpad@ == old(self).scratchpad@,
            final(self).backlog@ == old(self).backlog@,
    {
        match response {
            Some(_) => {
                if self.num_particles > num {
                    self.num_particles = self.num_particles - num;
                } else {
                    self.num_particles = 0;
                }
                Ok(())
            },
            None => Err(PhysicsError::WorkerUnavailable),
        }
    }

    /// Turns a flattened state into one instance for each whole particle.
    pub fn instances(&self, state: &Vec<i64>) -> (out: Vec<Instance>)
        ensures
            rendered(out@, state@, self.radius),
    {
        let len: usize = state.len();
        let particles: usize = len / 2;
        let mut out: Vec<Instance> = Vec::with_capacity(particles);
        let mut p: usize = 0;
        while p < particles
            invariant
                len == state@.len(),
                particles == len / 2,
                p <= particles,
                out@.len() == p,
                forall|q: int|
                    0 <= q < p ==> shows(
                        #[trigger] out@[q],
                        state@[2 * q],
                        state@[2 * q + 1],
                        self.radius,
                    ),
            decreases particles - p,
        {
            let instance = Instance {
                position: [state[2 * p], state[2 * p + 1]],
                radius: self.radius,
                color: [ONE, ONE, ONE],
            };
            assert(instance.position@ =~= seq![state@[2 * p], state@[2 * p + 1]]);
            assert(instance.color@ =~= seq![ONE, ONE, ONE]);
            out.push(instance);
            p += 1;
        }
        out
    }

    /// Takes in one snapshot from the queue while looking for the state at `t`.
    /// One older than `t` is kept for later. The first at or after `t` settles
    /// the question: the state shown comes from it and from the last older one,
    /// and the older ones are dropped.
    pub fn observe(&mut self, snapshot: Snapshot, t: i64) -> (found: Option<Vec<Instance>>)
        ensures
            final(self).same_setup(old(self)),
            final(self).backlog@ == old(self).backlog@,
            match found {
                None => snapshot.time < t && final(self).scratchpad@ == old(
                    self,
                ).scratchpad@.push(snapshot),
                Some(instances) => {
                    &&& snapshot.time >= t
                    &&& final(self).scratchpad@.len() == 0
                    &&& rendered(
                        instances@,
                        shown_for(entries(old(self).scratchpad@), snapshot@, t),
                        old(self).radius,
                    )
                },
            },
    {
        if snapshot.time < t {
            self.scratchpad.push(snapshot);
            return None;
        }
        let older: usize = self.scratchpad.len();
        let instances = if older == 0 {
            self.instances(&snapshot.state)
        } else {
            assert(entries(self.scratchpad@).last() == self.scratchpad@[older - 1]@);
            let shown = blend_states(&self.scratchpad[older - 1], &snapshot, t);
            self.instances(&shown)
        };
        self.scratchpad.clear();
        Some(instances)
    }

    /// Looks in the queue for the state at `t`: takes entries from its head,
    /// keeping those older than `t`, until the first at or after `t` arrives, and
    /// returns what `observe` makes of that one. When the queue runs dry before,
    /// or an attempt to take an entry has to be retried, the answer is `None`; the
    /// entries taken so far are kept, so that a later call goes on from there.
    pub fn get_state(&mut self, queue: &mut SnapshotQueue, t: i64) -> (found: Option<
        Vec<Instance>,
    >)
        ensures
            final(self).same_setup(old(self)),
            final(self).backlog@ == old(self).backlog@,
            match found {
                Some(instances) => {
                    let due = first_due(old(queue)@, t);
                    &&& due < old(queue)@.len()
                    &&& final(queue)@ == old(queue)@.skip(due + 1)
                    &&& final(self).scratchpad@.len() == 0
                    &&& rendered(
                        instances@,
                        shown_for(
                            entries(old(self).scratchpad@) + old(queue)@.take(due),
                            old(queue)@[due],
                            t,
                        ),
                        old(self).radius,
                    )
                },
                None => {
                    &&& entries(final(self).scratchpad@) + final(queue)@ == entries(
                        old(self).scratchpad@,
                    ) + old(queue)@
                    &&& old(queue)@.len() - final(queue)@.len() <= first_due(old(queue)@, t)
                    &&& final(queue)@.len() <= old(queue)@.len()
                },
            },
    {
        let ghost taken: int = 0;
        loop
            invariant
                self.same_setup(old(self)),
                self.backlog@ == old(self).backlog@,
                0 <= taken <= old(queue)@.len(),
                queue@ == old(queue)@.skip(taken),
                entries(self.scratchpad@) == entries(old(self).scratchpad@) + old(queue)@.take(
                    taken,
                ),
                first_due(old(queue)@, t) == taken + first_due(queue@, t),
            decreases queue@.len(),
        {
            let ghost scratch_before = self.scratchpad@;
            let ghost queue_before = queue@;
            match queue.steal() {
                Stolen::Taken(snapshot) => {
                    assert(queue_before[0] == old(queue)@[taken]);
                    assert(queue@ =~= old(queue)@.skip(taken + 1));
                    match self.observe(snapshot, t) {
                        Some(instances) => {
                            return Some(instances);
                        },
                        None => {
                            assert(entries(self.scratchpad@) =~= entries(scratch_before).push(
                                snapshot@,
                            ));
                            assert(old(queue)@.take(taken + 1) =~= old(queue)@.take(taken).push(
                                old(queue)@[taken],
                            ));
                            assert(entries(self.scratchpad@) =~= entries(old(self).scratchpad@)
                                + old(queue)@.take(taken + 1));
                            proof {
                                taken = taken + 1;
                            }
                        },
                    }
                },
                Stolen::Empty => {
                    proof {
                        lemma_first_due_bounds(queue@, t);
                    }
                    assert(entries(self.scratchpad@) + queue@ =~= entries(old(self).scratchpad@)
                        + old(queue)@);
                    return None;
                },
                Stolen::Retry => {
                    proof {
                        lemma_first_due_bounds(queue@, t);
                    }
                    assert(entries(self.scratchpad@) + queue@ =~= entries(old(self).scratchpad@)
                        + old(queue)@);
                    return None;
                },
            }
        }
    }

    /// The controller's part of a reset: empties the queue, puts back as its only
    /// entry the state to restart from, the last one queued that is not later than
    /// the controller's time and holds all the particles, takes that entry's time
    /// as its own, and returns the command for the worker. When the queue cannot
    /// be emptied in one go, the answer is `None` and a later call goes on; that
    /// answer comes only with entries left in the queue, so a reset that finds the
    /// queue empty always returns its command.
    pub fn reset(&mut self, queue: &mut SnapshotQueue) -> (command: Option<Command>)
        requires
            old(self).wf(),
        ensures
            final(self).wf(),
            final(self).radius == old(self).radius,
            final(self).display == old(self).display,
            final(self).aspect_ratio == old(self).aspect_ratio,
            final(self).num_particles == old(self).num_particles,
            final(self).scratchpad@ == old(self).scratchpad@,
            match command {
                None => {
                    &&& final(queue)@.len() > 0
                    &&& old(queue)@.len() > 0
                    &&& final(self).time == old(self).time
                    &&& entries(final(self).backlog@) + final(queue)@ == entries(
                        old(self).backlog@,
                    ) + old(queue)@
                },
                Some(c) => {
                    let start = recovered(
                        entries(old(self).backlog@) + old(queue)@,
                        old(self).time,
                        2 * old(self).num_particles,
                        0,
                    );
                    &&& final(queue)@ == seq![start]
                    &&& final(self).time == start.0
                    &&& final(self).backlog@.len() == 0
                    &&& c == (Command::Reset {
                        time: start.0,
                        radius: old(self).radius,
                        aspect_ratio: old(self).aspect_ratio,
                    })
                    &&& c.supported()
                },
            },
    {
        let ghost all = entries(self.backlog@) + queue@;
        if !queue.drain_into(&mut self.backlog) {
            return None;
        }
        assert(entries(self.backlog@) =~= all);
        let start = recover(&mut self.backlog, self.time, 2 * self.num_particles, 0);
        self.time = start.time;
        queue.push(start);
        assert(queue@ =~= seq![start@]);
        Some(
            Command::Reset {
                time: self.time,
                radius: self.radius,
                aspect_ratio: self.aspect_ratio,
            },
        )
    }
}

} // verus!
