use particles::queue::SnapshotQueue;
use particles::queue::Stolen;
use particles::snapshot::copy_of;
use particles::snapshot::zeros;
use particles::snapshot::Snapshot;

fn shot(time: i64, state: Vec<i64>) -> Snapshot {
    Snapshot { time, state }
}

fn take(queue: &mut SnapshotQueue) -> Option<Snapshot> {
    loop {
        match queue.steal() {
            Stolen::Taken(s) => return Some(s),
            Stolen::Empty => return None,
            Stolen::Retry => {}
        }
    }
}

#[test]
fn new_queue_is_empty() {
    let mut queue = SnapshotQueue::new();
    assert_eq!(queue.len(), 0);
    assert_eq!(take(&mut queue), None);
}

#[test]
fn entries_leave_in_the_order_pushed() {
    let mut queue = SnapshotQueue::new();
    queue.push(shot(1, vec![10, 11]));
    queue.push(shot(2, vec![20, 21]));
    queue.push(shot(3, vec![]));
    assert_eq!(queue.len(), 3);
    assert_eq!(take(&mut queue), Some(shot(1, vec![10, 11])));
    assert_eq!(queue.len(), 2);
    assert_eq!(take(&mut queue), Some(shot(2, vec![20, 21])));
    assert_eq!(take(&mut queue), Some(shot(3, vec![])));
    assert_eq!(queue.len(), 0);
    assert_eq!(take(&mut queue), None);
}

#[test]
fn queue_grows_past_one_block() {
    let mut queue = SnapshotQueue::new();
    for i in 0..200 {
        queue.push(shot(i, vec![i]));
    }
    assert_eq!(queue.len(), 200);
    for i in 0..200 {
        assert_eq!(take(&mut queue), Some(shot(i, vec![i])));
    }
    assert_eq!(queue.len(), 0);
}

#[test]
fn drain_moves_everything_behind_the_sink() {
    let mut queue = SnapshotQueue::new();
    queue.push(shot(1, vec![1]));
    queue.push(shot(2, vec![2]));
    let mut sink = vec![shot(0, vec![0])];
    let mut emptied = queue.drain_into(&mut sink);
    while !emptied {
        emptied = queue.drain_into(&mut sink);
    }
    assert_eq!(sink, vec![shot(0, vec![0]), shot(1, vec![1]), shot(2, vec![2])]);
    assert_eq!(queue.len(), 0);
}

#[test]
fn drain_of_empty_queue_reports_emptied() {
    let mut queue = SnapshotQueue::new();
    let mut sink: Vec<Snapshot> = vec![];
    assert!(queue.drain_into(&mut sink));
    assert!(sink.is_empty());
}

#[test]
fn copies_and_zeros() {
    assert_eq!(copy_of(&vec![3, -4, 5]), vec![3, -4, 5]);
    assert_eq!(copy_of(&vec![]), Vec::<i64>::new());
    assert_eq!(zeros(4), vec![0, 0, 0, 0]);
    assert_eq!(zeros(0), Vec::<i64>::new());
    let source = shot(9, vec![1, 2]);
    assert_eq!(source.duplicate(), source);
}

#[test]
fn empty_queue_answers_empty_at_once() {
    let mut queue = SnapshotQueue::new();
    assert_eq!(queue.steal(), Stolen::Empty);
    queue.push(shot(1, vec![1]));
    assert_eq!(take(&mut queue), Some(shot(1, vec![1])));
    assert_eq!(queue.steal(), Stolen::Empty);
    assert_eq!(queue.len(), 0);
}

#[test]
fn drain_reports_whether_anything_is_left() {
    let mut queue = SnapshotQueue::new();
    for i in 0..70 {
        queue.push(shot(i, vec![i]));
    }
    let mut sink: Vec<Snapshot> = vec![];
    loop {
        let emptied = queue.drain_into(&mut sink);
        assert_eq!(emptied, queue.len() == 0);
        assert_eq!(sink.len() + queue.len(), 70);
        if emptied {
            break;
        }
    }
    assert_eq!(sink.len(), 70);
    assert!(queue.drain_into(&mut sink));
    assert_eq!(sink.len(), 70);
}
