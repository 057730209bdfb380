use particles::fixed::ONE;
use particles::integrator::IntegrationError;
use particles::queue::SnapshotQueue;
use particles::queue::Stolen;
use particles::snapshot::Snapshot;
use particles::spawn::Candidate;
use particles::worker::append_placed;
use particles::worker::recover;
use particles::worker::should_park;
use particles::worker::Command;
use particles::worker::Outcome;
use particles::worker::Worker;
use particles::worker::STEP;

const RADIUS: i64 = 62_500;

fn shot(time: i64, state: Vec<i64>) -> Snapshot {
    Snapshot { time, state }
}

fn at(x: i64, y: i64, vx: i64, vy: i64) -> Candidate {
    Candidate { x, y, vx, vy }
}

fn contents(queue: &mut SnapshotQueue) -> Vec<Snapshot> {
    let mut all = vec![];
    while !queue.drain_into(&mut all) {}
    for s in all.iter() {
        queue.push(s.duplicate());
    }
    all
}

fn handle(worker: &mut Worker, queue: &mut SnapshotQueue, command: Command) -> Outcome {
    loop {
        let outcome = worker.handle_command(queue, command);
        if outcome != Outcome::Busy {
            return outcome;
        }
    }
}

fn with_particles(queue: &mut SnapshotQueue, particles: &[Candidate]) -> Worker {
    let mut worker = Worker::new(true, 0, RADIUS, ONE).unwrap();
    if particles.is_empty() {
        return worker;
    }
    assert_eq!(
        handle(&mut worker, queue, Command::Spawn { count: particles.len() }),
        Outcome::NeedCandidate
    );
    let mut outcome = Outcome::NeedCandidate;
    for c in particles {
        assert_eq!(outcome, Outcome::NeedCandidate);
        outcome = worker.offer(queue, *c);
    }
    assert_eq!(outcome, Outcome::Done(true));
    worker
}

fn five() -> Vec<Candidate> {
    vec![
        at(0, 0, 100_000, 0),
        at(300_000, 0, 0, 100_000),
        at(-300_000, 0, -100_000, 0),
        at(0, 300_000, 0, -100_000),
        at(0, -300_000, 50_000, 50_000),
    ]
}

#[test]
fn park_thresholds() {
    assert!(!should_park(true, 100));
    assert!(should_park(true, 101));
    assert!(!should_park(false, 2));
    assert!(should_park(false, 3));
    assert!(!should_park(false, 0));
    assert!(should_park(true, usize::MAX));
}

#[test]
fn step_is_a_tenth_of_a_second() {
    assert_eq!(STEP, 100_000);
    assert_eq!(STEP * 10, ONE);
}

#[test]
fn new_worker_has_no_particles() {
    let worker = Worker::new(false, 250_000, RADIUS, 2 * ONE).unwrap();
    assert!(!worker.display);
    assert_eq!(worker.time, 250_000);
    assert_eq!(worker.radius, RADIUS);
    assert_eq!(worker.aspect_ratio, 2 * ONE);
    assert_eq!(worker.num_particles, 0);
    assert!(worker.velocities.is_empty());
    assert!(worker.solver.state.is_empty());
    assert_eq!(worker.solver.time, 250_000);
    assert_eq!(worker.solver.dt, STEP);
    assert!(worker.pending.is_none());
}

#[test]
fn recover_takes_the_last_entry_that_qualifies() {
    let mut backlog = vec![
        shot(0, vec![1, 1]),
        shot(100, vec![2, 2]),
        shot(200, vec![3]),
        shot(300, vec![4, 4]),
    ];
    assert_eq!(recover(&mut backlog, 250, 2, 7), shot(100, vec![2, 2]));
    assert!(backlog.is_empty());
    let mut again = vec![shot(0, vec![1, 1]), shot(100, vec![2, 2])];
    assert_eq!(recover(&mut again, 100, 2, 7), shot(100, vec![2, 2]));
    assert!(again.is_empty());
}

#[test]
fn recover_falls_back_to_zeros() {
    let mut backlog = vec![shot(500, vec![1, 1]), shot(0, vec![1, 2, 3])];
    assert_eq!(recover(&mut backlog, 250, 2, 7), shot(7, vec![0, 0]));
    assert!(backlog.is_empty());
    let mut nothing: Vec<Snapshot> = vec![];
    assert_eq!(recover(&mut nothing, 0, 4, -3), shot(-3, vec![0, 0, 0, 0]));
    assert_eq!(recover(&mut nothing, 0, 0, 9), shot(9, vec![]));
}

#[test]
fn append_flattens_candidates() {
    let mut state = vec![9, 9];
    let mut velocity = vec![8, 8];
    append_placed(&mut state, &mut velocity, &vec![at(1, 2, 3, 4), at(5, 6, 7, 8)]);
    assert_eq!(state, vec![9, 9, 1, 2, 5, 6]);
    assert_eq!(velocity, vec![8, 8, 3, 4, 7, 8]);
    append_placed(&mut state, &mut velocity, &vec![]);
    assert_eq!(state, vec![9, 9, 1, 2, 5, 6]);
}

#[test]
fn advance_publishes_the_state_the_step_starts_from() {
    let mut queue = SnapshotQueue::new();
    let mut worker = with_particles(&mut queue, &[at(900_000, 0, 500_000, -250_000)]);
    assert_eq!(contents(&mut queue), vec![shot(0, vec![900_000, 0])]);
    assert_eq!(worker.advance(&mut queue, false), Ok(Some(2)));
    assert_eq!(worker.time, 0);
    assert_eq!(worker.solver.time, STEP);
    assert_eq!(worker.solver.state, vec![950_000, -25_000]);
    assert_eq!(worker.advance(&mut queue, false), Ok(Some(3)));
    assert_eq!(worker.time, STEP);
    assert_eq!(worker.velocities, vec![-500_000, -250_000]);
    assert_eq!(worker.solver.state, vec![900_000, -50_000]);
    assert_eq!(
        contents(&mut queue),
        vec![
            shot(0, vec![900_000, 0]),
            shot(0, vec![900_000, 0]),
            shot(STEP, vec![950_000, -25_000]),
        ]
    );
}

#[test]
fn advance_while_paused_does_nothing() {
    let mut queue = SnapshotQueue::new();
    let mut worker = with_particles(&mut queue, &[at(0, 0, 500_000, 0)]);
    assert_eq!(worker.advance(&mut queue, true), Ok(None));
    assert_eq!(queue.len(), 1);
    assert_eq!(worker.solver.state, vec![0, 0]);
    assert_eq!(worker.solver.time, 0);
    assert_eq!(worker.velocities, vec![500_000, 0]);
}

#[test]
fn advance_out_of_range_fails_and_changes_nothing() {
    let mut queue = SnapshotQueue::new();
    let mut worker = Worker::new(true, i64::MAX - 1, RADIUS, ONE).unwrap();
    assert_eq!(
        worker.advance(&mut queue, false),
        Err(IntegrationError::OutOfRange)
    );
    assert_eq!(queue.len(), 0);
    assert_eq!(worker.solver.time, i64::MAX - 1);
}

#[test]
fn pop_keeps_the_first_particles() {
    let mut queue = SnapshotQueue::new();
    let mut worker = with_particles(&mut queue, &five());
    assert_eq!(worker.num_particles, 5);
    assert_eq!(worker.advance(&mut queue, false), Ok(Some(2)));
    assert_eq!(handle(&mut worker, &mut queue, Command::Pop { count: 2 }), Outcome::Done(true));
    assert_eq!(worker.num_particles, 3);
    assert_eq!(worker.solver.state, vec![0, 0, 300_000, 0, -300_000, 0]);
    assert_eq!(worker.velocities, vec![100_000, 0, 0, 100_000, -100_000, 0]);
    assert_eq!(worker.time, 0);
    assert_eq!(worker.solver.time, 0);
    assert_eq!(
        contents(&mut queue),
        vec![shot(0, vec![0, 0, 300_000, 0, -300_000, 0])]
    );
}

#[test]
fn pop_to_zero() {
    let mut queue = SnapshotQueue::new();
    let mut worker = with_particles(&mut queue, &five());
    assert_eq!(handle(&mut worker, &mut queue, Command::Pop { count: 5 }), Outcome::Done(true));
    assert_eq!(worker.num_particles, 0);
    assert!(worker.solver.state.is_empty());
    assert!(worker.velocities.is_empty());
    assert_eq!(contents(&mut queue), vec![shot(0, vec![])]);
}

#[test]
fn pop_of_more_than_there_are_removes_all() {
    let mut queue = SnapshotQueue::new();
    let mut worker = with_particles(&mut queue, &five());
    assert_eq!(handle(&mut worker, &mut queue, Command::Pop { count: 6 }), Outcome::Done(true));
    assert_eq!(worker.num_particles, 0);
    assert_eq!(
        handle(&mut worker, &mut queue, Command::Pop { count: usize::MAX }),
        Outcome::Done(true)
    );
    assert_eq!(worker.num_particles, 0);
    assert_eq!(contents(&mut queue), vec![shot(0, vec![])]);
}

#[test]
fn pop_of_nothing_keeps_all() {
    let mut queue = SnapshotQueue::new();
    let mut worker = with_particles(&mut queue, &five());
    assert_eq!(handle(&mut worker, &mut queue, Command::Pop { count: 0 }), Outcome::Done(true));
    assert_eq!(worker.num_particles, 5);
    assert_eq!(worker.solver.state.len(), 10);
    assert_eq!(worker.velocities.len(), 10);
}

#[test]
fn command_restarts_at_the_latest_state_not_later_than_its_time() {
    let mut queue = SnapshotQueue::new();
    let mut worker = with_particles(&mut queue, &[at(0, 0, 500_000, 0)]);
    for _ in 0..4 {
        worker.advance(&mut queue, false).unwrap();
    }
    assert_eq!(worker.time, 3 * STEP);
    assert_eq!(handle(&mut worker, &mut queue, Command::Pop { count: 0 }), Outcome::Done(true));
    assert_eq!(worker.time, 3 * STEP);
    assert_eq!(worker.solver.time, 3 * STEP);
    assert_eq!(worker.solver.state, vec![150_000, 0]);
    assert_eq!(contents(&mut queue), vec![shot(3 * STEP, vec![150_000, 0])]);
}

#[test]
fn reset_takes_over_the_geometry_and_keeps_the_particles() {
    let mut queue = SnapshotQueue::new();
    let mut worker = with_particles(&mut queue, &five());
    for _ in 0..3 {
        worker.advance(&mut queue, false).unwrap();
    }
    let velocities = worker.velocities.clone();
    let command = Command::Reset { time: STEP, radius: 31_250, aspect_ratio: 2 * ONE };
    assert_eq!(handle(&mut worker, &mut queue, command), Outcome::Done(true));
    assert_eq!(worker.radius, 31_250);
    assert_eq!(worker.aspect_ratio, 2 * ONE);
    assert_eq!(worker.num_particles, 5);
    assert_eq!(worker.velocities, velocities);
    assert_eq!(worker.time, STEP);
    assert_eq!(worker.solver.time, STEP);
    assert_eq!(
        worker.solver.state,
        vec![10_000, 0, 300_000, 10_000, -310_000, 0, 0, 290_000, 5_000, -295_000]
    );
    let left = contents(&mut queue);
    assert_eq!(left.len(), 1);
    assert_eq!(left[0].time, STEP);
    assert_eq!(left[0].state, worker.solver.state);
}

#[test]
fn reset_without_a_usable_entry_restarts_at_the_origin() {
    let mut queue = SnapshotQueue::new();
    let mut worker = with_particles(&mut queue, &five());
    worker.advance(&mut queue, false).unwrap();
    let command = Command::Reset { time: -1, radius: RADIUS, aspect_ratio: ONE };
    assert_eq!(handle(&mut worker, &mut queue, command), Outcome::Done(true));
    assert_eq!(worker.num_particles, 5);
    assert_eq!(worker.solver.state, vec![0; 10]);
    assert_eq!(worker.velocities.len(), 10);
    assert_eq!(worker.time, 0);
    assert_eq!(contents(&mut queue), vec![shot(0, vec![0; 10])]);
}

#[test]
fn command_skips_entries_of_another_dimension() {
    let mut queue = SnapshotQueue::new();
    let mut worker = with_particles(&mut queue, &[at(0, 0, 0, 0)]);
    queue.push(shot(0, vec![1, 2, 3, 4]));
    queue.push(shot(0, vec![5]));
    assert_eq!(handle(&mut worker, &mut queue, Command::Pop { count: 0 }), Outcome::Done(true));
    assert_eq!(worker.solver.state, vec![0, 0]);
    assert_eq!(contents(&mut queue), vec![shot(0, vec![0, 0])]);
}

#[test]
fn spawn_of_nothing_succeeds_at_once() {
    let mut queue = SnapshotQueue::new();
    let mut worker = with_particles(&mut queue, &five());
    assert_eq!(handle(&mut worker, &mut queue, Command::Spawn { count: 0 }), Outcome::Done(true));
    assert_eq!(worker.num_particles, 5);
    assert!(worker.pending.is_none());
    assert_eq!(queue.len(), 1);
}

#[test]
fn spawn_places_all_the_particles_at_once() {
    let mut queue = SnapshotQueue::new();
    let mut worker = with_particles(&mut queue, &[at(0, 0, 1, 2)]);
    assert_eq!(
        handle(&mut worker, &mut queue, Command::Spawn { count: 2 }),
        Outcome::NeedCandidate
    );
    assert_eq!(queue.len(), 0);
    assert_eq!(worker.offer(&mut queue, at(10, 10, 3, 4)), Outcome::NeedCandidate);
    assert_eq!(worker.offer(&mut queue, at(500_000, 0, 5, 6)), Outcome::NeedCandidate);
    assert_eq!(worker.num_particles, 1);
    assert_eq!(worker.solver.state, vec![0, 0]);
    assert_eq!(queue.len(), 0);
    assert_eq!(worker.offer(&mut queue, at(500_000, 100_000, 7, 8)), Outcome::NeedCandidate);
    assert_eq!(worker.offer(&mut queue, at(-500_000, 0, 9, 10)), Outcome::Done(true));
    assert_eq!(worker.num_particles, 3);
    assert_eq!(worker.solver.state, vec![0, 0, 500_000, 0, -500_000, 0]);
    assert_eq!(worker.velocities, vec![1, 2, 5, 6, 9, 10]);
    assert!(worker.pending.is_none());
    assert_eq!(
        contents(&mut queue),
        vec![shot(0, vec![0, 0, 500_000, 0, -500_000, 0])]
    );
}

#[test]
fn spawn_saturation() {
    let mut queue = SnapshotQueue::new();
    let mut worker = Worker::new(true, 0, 600_000, ONE).unwrap();
    assert_eq!(
        handle(&mut worker, &mut queue, Command::Spawn { count: 2 }),
        Outcome::NeedCandidate
    );
    assert_eq!(worker.offer(&mut queue, at(0, 0, 1, 1)), Outcome::NeedCandidate);
    let mut outcome = Outcome::NeedCandidate;
    let mut offered = 0;
    while outcome == Outcome::NeedCandidate {
        let x = -399_000 + 16_000 * offered;
        outcome = worker.offer(&mut queue, at(x, -x, 2, 2));
        offered += 1;
    }
    assert_eq!(offered, 50);
    assert_eq!(outcome, Outcome::Done(false));
    assert_eq!(worker.num_particles, 0);
    assert!(worker.solver.state.is_empty());
    assert!(worker.velocities.is_empty());
    assert!(worker.pending.is_none());
    assert_eq!(contents(&mut queue), vec![shot(0, vec![])]);
}

#[test]
fn failed_spawn_leaves_the_particles_as_they_were() {
    let mut queue = SnapshotQueue::new();
    let mut worker = with_particles(&mut queue, &five());
    let state = worker.solver.state.clone();
    let velocities = worker.velocities.clone();
    assert_eq!(
        handle(&mut worker, &mut queue, Command::Spawn { count: 3 }),
        Outcome::NeedCandidate
    );
    assert_eq!(worker.offer(&mut queue, at(600_000, 600_000, 0, 0)), Outcome::NeedCandidate);
    let mut outcome = Outcome::NeedCandidate;
    let mut offered = 0;
    while outcome == Outcome::NeedCandidate {
        outcome = worker.offer(&mut queue, at(999_999, 0, 0, 0));
        offered += 1;
    }
    assert_eq!(offered, 50);
    assert_eq!(outcome, Outcome::Done(false));
    assert_eq!(worker.num_particles, 5);
    assert_eq!(worker.solver.state, state);
    assert_eq!(worker.velocities, velocities);
    assert_eq!(contents(&mut queue), vec![shot(0, state)]);
}

#[test]
fn steal_after_restart_gives_the_restart_state() {
    let mut queue = SnapshotQueue::new();
    let mut worker = with_particles(&mut queue, &[at(1, 2, 3, 4)]);
    worker.advance(&mut queue, false).unwrap();
    assert_eq!(handle(&mut worker, &mut queue, Command::Pop { count: 1 }), Outcome::Done(true));
    let mut got = queue.steal();
    while got == Stolen::Retry {
        got = queue.steal();
    }
    assert_eq!(got, Stolen::Taken(shot(0, vec![])));
}

#[test]
fn command_that_finds_the_queue_empty_is_carried_out_at_once() {
    let mut queue = SnapshotQueue::new();
    let mut worker = Worker::new(true, 40, RADIUS, ONE).unwrap();
    assert_eq!(
        worker.handle_command(&mut queue, Command::Pop { count: 1 }),
        Outcome::Done(true)
    );
    assert_eq!(contents(&mut queue), vec![shot(40, vec![])]);
    let mut empty = SnapshotQueue::new();
    assert_eq!(
        worker.handle_command(&mut empty, Command::Spawn { count: 2 }),
        Outcome::NeedCandidate
    );
    assert_eq!(empty.len(), 0);
}
