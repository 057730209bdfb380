use crate::controller::popped;
use crate::fixed::lemma_scaled_negated;
use crate::fixed::scaled;
use crate::fixed::ONE;
use crate::integrator::advanced;
use crate::integrator::derivative_at;
use crate::integrator::inset_of;
use crate::integrator::near_wall;
use crate::integrator::negatable;
use crate::integrator::paired;
use crate::integrator::reflected;
use crate::spawn::acceptable;
use crate::spawn::Candidate;
use crate::controller::rendered;
use crate::controller::shown_for;
use crate::controller::Instance;
use crate::controller::Physics;
use crate::interp::blend;
use crate::interp::brackets;
use crate::interp::lemma_mix_between;
use crate::interp::mix;
use crate::worker::lemma_recovered_dim;
use crate::worker::Command;
use crate::worker::Worker;
use vstd::prelude::*;

verus! {

/// Between two samples that bracket `t`, every blended coordinate lies between
/// the two samples' coordinates, and all coordinates are moved by the same
/// fraction of the way from the later sample to the earlier one, so that a
/// blended position lies on the segment between the two sampled positions.
pub proof fn law_blend_on_segment(before: (i64, Seq<i64>), after: (i64, Seq<i64>), t: i64, i: int)
    requires
        brackets(before, after, t),
        0 <= i < after.1.len(),
    ensures
        blend(before, after, t).len() == after.1.len(),
        blend(before, after, t)[i] == mix(
            before.1[i] as int,
            after.1[i] as int,
            t - before.0,
            after.0 - before.0,
        ),
        before.1[i] <= after.1[i] ==> before.1[i] <= blend(before, after, t)[i] <= after.1[i],
        after.1[i] <= before.1[i] ==> after.1[i] <= blend(before, after, t)[i] <= before.1[i],
{
    lemma_mix_between(before.1[i] as int, after.1[i] as int, t - before.0, after.0 - before.0);
}

/// Asked for the later sample's own time, the blend is the earlier sample as it
/// is: the earlier sample carries the weight that grows with `t`.
pub proof fn law_blend_at_later_time(before: (i64, Seq<i64>), after: (i64, Seq<i64>))
    requires
        brackets(before, after, after.0),
    ensures
        blend(before, after, after.0) == before.1,
{
    let shown = blend(before, after, after.0);
    assert forall|i: int| 0 <= i < shown.len() implies shown[i] == before.1[i] by {
        lemma_mix_between(
            before.1[i] as int,
            after.1[i] as int,
            after.0 - before.0,
            after.0 - before.0,
        );
    }
    assert(shown =~= before.1);
}

/// With nothing older at hand, the first sample at or after `t` is shown as it is.
pub proof fn law_first_sample_verbatim(target: (i64, Seq<i64>), t: i64)
    ensures
        shown_for(Seq::<(i64, Seq<i64>)>::empty(), target, t) == target.1,
{
}

/// Whatever older samples are at hand, the instances shown are as many as the
/// particles of the first sample at or after `t`.
pub proof fn law_shown_count(
    instances: Seq<Instance>,
    older: Seq<(i64, Seq<i64>)>,
    target: (i64, Seq<i64>),
    t: i64,
    radius: i64,
)
    requires
        rendered(instances, shown_for(older, target, t), radius),
    ensures
        instances.len() == target.1.len() / 2,
{
}

/// A reset keeps every particle: the worker restarts with the count it had, the
/// only snapshot left in the queue holds that many particles, and the instances
/// that the controller makes of that snapshot are that many.
pub proof fn law_reset_keeps_count(
    before: Worker,
    after: Worker,
    queued: Seq<(i64, Seq<i64>)>,
    published: Seq<(i64, Seq<i64>)>,
    command: Command,
    instances: Seq<Instance>,
    older: Seq<(i64, Seq<i64>)>,
    t: i64,
    radius: i64,
)
    requires
        before.wf(),
        command matches Command::Reset { time, radius: r, aspect_ratio } && before.restarted(
            &after,
            published,
            before.start_for(queued, command),
            r,
            aspect_ratio,
            before.num_particles as int,
        ),
        rendered(instances, shown_for(older, published[0], t), radius),
    ensures
        after.num_particles == before.num_particles,
        published.len() == 1,
        published[0].1.len() == 2 * before.num_particles,
        after.velocities@ == before.velocities@,
        instances.len() == before.num_particles,
{
    lemma_recovered_dim(
        crate::snapshot::entries(before.backlog@) + queued,
        command.horizon(before.time),
        2 * before.num_particles,
        before.time,
    );
    assert(before.velocities@.take(2 * before.num_particles) =~= before.velocities@);
}

/// After a pop of `n` particles the controller and the worker agree on the
/// count, which is the count before less `n` and never below zero, and the state
/// that the worker restarts from and publishes has two coordinates for each
/// particle left.
pub proof fn law_pop_count(
    before: Worker,
    after: Worker,
    queued: Seq<(i64, Seq<i64>)>,
    published: Seq<(i64, Seq<i64>)>,
    n: usize,
    controller_before: Physics,
    controller_after: Physics,
)
    requires
        before.wf(),
        controller_before.num_particles == before.num_particles,
        before.restarted(
            &after,
            published,
            before.start_for(queued, Command::Pop { count: n }),
            before.radius,
            before.aspect_ratio,
            popped(before.num_particles as int, n as int),
        ),
        controller_after.num_particles == popped(controller_before.num_particles as int, n as int),
    ensures
        controller_after.num_particles == if n >= controller_before.num_particles {
            0
        } else {
            controller_before.num_particles - n
        },
        controller_after.num_particles <= controller_before.num_particles,
        after.num_particles == controller_after.num_particles,
        after.solver.state@.len() == 2 * controller_after.num_particles,
        after.velocities@.len() == 2 * controller_after.num_particles,
        published.len() == 1,
        published[0].1.len() == 2 * controller_after.num_particles,
{
    lemma_recovered_dim(
        crate::snapshot::entries(before.backlog@) + queued,
        before.time,
        2 * before.num_particles,
        before.time,
    );
}

/// A spawn that is given up changes nothing: from the moment the worker asks for
/// the first candidate to the moment it answers with failure, the particle count,
/// the positions and the velocities stay what the recovered state made them, so
/// the state keeps its length; and the controller's count stays as it was.
pub proof fn law_failed_spawn_changes_nothing(
    before: Worker,
    placing: Worker,
    after: Worker,
    queued: Seq<(i64, Seq<i64>)>,
    emptied: Seq<(i64, Seq<i64>)>,
    count: usize,
    controller_before: Physics,
    controller_after: Physics,
)
    requires
        before.wf(),
        before.placing(
            &placing,
            emptied,
            before.start_for(queued, Command::Spawn { count }),
            count,
        ),
        after.same_setup(&placing),
        after.same_motion(&placing),
        controller_after.num_particles == controller_before.num_particles,
    ensures
        after.num_particles == before.num_particles,
        after.solver.state@ == before.start_for(queued, Command::Spawn { count }).1,
        after.solver.state@.len() == before.solver.state@.len(),
        after.velocities@ == before.velocities@,
        controller_after.num_particles == controller_before.num_particles,
{
    lemma_recovered_dim(
        crate::snapshot::entries(before.backlog@) + queued,
        before.time,
        2 * before.num_particles,
        before.time,
    );
}

/// The distance from the middle of the box to the band along a wall.
pub open spec fn limit_of(inset: int) -> int {
    ONE - inset
}

/// Whether a coordinate is where the walls keep it: strictly between the two
/// bands, or in a band that its last step has just carried it into, so that the
/// turn it takes there carries it back.
pub open spec fn contained(x: int, v: int, inset: int, dt: int) -> bool {
    ||| -limit_of(inset) < x < limit_of(inset)
    ||| (x >= limit_of(inset) && scaled(v, dt) > 0 && x - scaled(v, dt) < limit_of(inset))
    ||| (x <= -limit_of(inset) && scaled(v, dt) < 0 && x - scaled(v, dt) > -limit_of(inset))
}

/// The distance that one step carries a coordinate.
pub open spec fn reach(v: int, dt: int) -> int {
    if scaled(v, dt) < 0 {
        -scaled(v, dt)
    } else {
        scaled(v, dt)
    }
}

/// Whether one step is shorter than the room between the two bands.
pub open spec fn room_for_step(v: int, inset: int, dt: int) -> bool {
    -2 * limit_of(inset) < scaled(v, dt) < 2 * limit_of(inset)
}

/// One step keeps a coordinate where the walls keep it, and so never farther
/// beyond the band's edge than one step's travel.
pub proof fn law_step_keeps_coordinate(x: int, v: int, inset: int, dt: int)
    requires
        contained(x, v, inset, dt),
        room_for_step(v, inset, dt),
    ensures
        ({
            let turned = if near_wall(x, inset) {
                -v
            } else {
                v
            };
            let moved = x + scaled(turned, dt);
            &&& contained(moved, turned, inset, dt)
            &&& room_for_step(turned, inset, dt)
            &&& -limit_of(inset) - reach(turned, dt) < moved < limit_of(inset) + reach(turned, dt)
        }),
{
    lemma_scaled_negated(v, dt);
}

/// Whether every coordinate of every whole particle is where the walls keep it.
pub open spec fn all_contained(
    y: Seq<int>,
    v: Seq<i64>,
    radius: i64,
    aspect_ratio: i64,
    dt: i64,
) -> bool {
    forall|i: int|
        0 <= i < paired(y.len()) ==> contained(
            #[trigger] y[i],
            v[i] as int,
            inset_of(i, radius, aspect_ratio),
            dt as int,
        )
}

/// Whether every step of every whole particle is shorter than the room between
/// the bands that bound it.
pub open spec fn all_room_for_step(v: Seq<i64>, radius: i64, aspect_ratio: i64, dt: i64) -> bool {
    forall|i: int|
        0 <= i < paired(v.len()) ==> room_for_step(
            #[trigger] v[i] as int,
            inset_of(i, radius, aspect_ratio),
            dt as int,
        )
}

/// Boundary containment: when every particle is where the walls keep it, it still
/// is after one step of the integrator, with the velocities that the step leaves.
pub proof fn law_boundary_containment(
    y: Seq<i64>,
    v: Seq<i64>,
    radius: i64,
    aspect_ratio: i64,
    dt: i64,
)
    requires
        y.len() == v.len(),
        negatable(v),
        all_contained(y.map_values(|x: i64| x as int), v, radius, aspect_ratio, dt),
        all_room_for_step(v, radius, aspect_ratio, dt),
    ensures
        all_contained(
            advanced(y, derivative_at(y, v, radius, aspect_ratio), dt),
            reflected(y, v, radius, aspect_ratio),
            radius,
            aspect_ratio,
            dt,
        ),
        all_room_for_step(reflected(y, v, radius, aspect_ratio), radius, aspect_ratio, dt),
{
    let ints = y.map_values(|x: i64| x as int);
    let dy = derivative_at(y, v, radius, aspect_ratio);
    let next = advanced(y, dy, dt);
    let turned = reflected(y, v, radius, aspect_ratio);
    assert forall|i: int| 0 <= i < paired(next.len()) implies contained(
        #[trigger] next[i],
        turned[i] as int,
        inset_of(i, radius, aspect_ratio),
        dt as int,
    ) by {
        assert(contained(ints[i], v[i] as int, inset_of(i, radius, aspect_ratio), dt as int));
        assert(room_for_step(v[i] as int, inset_of(i, radius, aspect_ratio), dt as int));
        assert(v[i] > i64::MIN);
        law_step_keeps_coordinate(
            y[i] as int,
            v[i] as int,
            inset_of(i, radius, aspect_ratio),
            dt as int,
        );
    }
    assert forall|i: int| 0 <= i < paired(turned.len()) implies room_for_step(
        #[trigger] turned[i] as int,
        inset_of(i, radius, aspect_ratio),
        dt as int,
    ) by {
        assert(room_for_step(v[i] as int, inset_of(i, radius, aspect_ratio), dt as int));
        assert(v[i] > i64::MIN);
        lemma_scaled_negated(v[i] as int, dt as int);
    }
}

/// A candidate that the placement rule accepts is where the walls keep it,
/// whatever its velocity.
pub proof fn law_spawned_contained(
    existing: Seq<i64>,
    placed: Seq<Candidate>,
    c: Candidate,
    radius: i64,
    aspect_ratio: i64,
    dt: int,
)
    requires
        acceptable(existing, placed, c, radius, aspect_ratio),
    ensures
        contained(c.x as int, c.vx as int, inset_of(0, radius, aspect_ratio), dt),
        contained(c.y as int, c.vy as int, inset_of(1, radius, aspect_ratio), dt),
{
}

} // verus!
