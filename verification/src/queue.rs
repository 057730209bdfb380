use crate::snapshot::entries;
use crate::snapshot::Snapshot;
use crossbeam::deque::Injector;
use crossbeam::deque::Steal;
use vstd::prelude::*;

verus! {

/// `Injector` of crossbeam's deque module: a first-in, first-out queue. The
/// verifier sees nothing inside it; what it holds is named by `queued`.
#[verifier::external_type_specification]
#[verifier::external_body]
#[verifier::reject_recursive_types(T)]
pub struct ExInjector<T>(Injector<T>);

/// The entries that an injector queue holds, oldest first.
pub uninterp spec fn queued(q: Injector<(i64, Vec<i64>)>) -> Seq<(i64, Seq<i64>)>;

/// What one attempt to take the oldest entry gave.
#[derive(Debug, PartialEq, Eq)]
pub enum Stolen {
    /// The oldest entry, now removed from the queue.
    Taken(Snapshot),
    /// The queue held nothing.
    Empty,
    /// The attempt lost a race inside the queue and changed nothing.
    Retry,
}

/// `Injector::new` of crossbeam: the queue it returns holds nothing.
#[verifier::external_body]
fn injector_new() -> (q: Injector<(i64, Vec<i64>)>)
    ensures
        queued(q) == Seq::<(i64, Seq<i64>)>::empty(),
{
    Injector::new()
}

/// `Injector::push` of crossbeam: the entry is appended behind those already queued.
/// Claimed of a queue that the caller alone holds.
#[verifier::external_body]
fn injector_push(q: &mut Injector<(i64, Vec<i64>)>, time: i64, state: Vec<i64>)
    ensures
        queued(*final(q)) == queued(*old(q)).push((time, state@)),
{
    q.push((time, state))
}

/// `Injector::steal` of crossbeam, on a queue that the caller alone holds: success
/// hands out the oldest entry and removes it; an empty queue, and only an empty
/// queue, answers that it is empty; a retry leaves the queue as it was. The
/// answer to retry comes from the one place where the head is moved forward,
/// which an empty queue never reaches: it has answered before.
#[verifier::external_body]
fn injector_steal(q: &mut Injector<(i64, Vec<i64>)>) -> (got: Stolen)
    ensures
        queued(*old(q)).len() == 0 ==> got is Empty,
        match got {
            Stolen::Taken(s) => queued(*old(q)).len() > 0 && s@ == queued(*old(q))[0]
                && queued(*final(q)) == queued(*old(q)).drop_first(),
            Stolen::Empty => queued(*old(q)).len() == 0 && queued(*final(q)) == queued(*old(q)),
            Stolen::Retry => queued(*final(q)) == queued(*old(q)),
        },
{
    match q.steal() {
        Steal::Success((time, state)) => Stolen::Taken(Snapshot { time, state }),
        Steal::Empty => Stolen::Empty,
        Steal::Retry => Stolen::Retry,
    }
}

/// `Injector::len` of crossbeam: the number of entries queued.
#[verifier::external_body]
fn injector_len(q: &Injector<(i64, Vec<i64>)>) -> (n: usize)
    ensures
        n == queued(*q).len(),
{
    q.len()
}

/// The buffer of published snapshots between the worker and the controller.
/// Entries leave in the order in which they were pushed.
pub struct SnapshotQueue {
    inner: Injector<(i64, Vec<i64>)>,
}

impl View for SnapshotQueue {
    type V = Seq<(i64, Seq<i64>)>;

    closed spec fn view(&self) -> Seq<(i64, Seq<i64>)> {
        queued(self.inner)
    }
}

impl SnapshotQueue {
    /// An empty queue.
    pub fn new() -> (q: SnapshotQueue)
        ensures
            q@ == Seq::<(i64, Seq<i64>)>::empty(),
    {
        SnapshotQueue { inner: injector_new() }
    }

    /// Appends `snapshot` behind the entries already queued.
    pub fn push(&mut self, snapshot: Snapshot)
        ensures
            final(self)@ == old(self)@.push(snapshot@),
    {
        injector_push(&mut self.inner, snapshot.time, snapshot.state);
    }

    /// Tries once to take the oldest entry. An empty queue always answers that it
    /// is empty; one that holds entries hands out the oldest or asks for a retry.
    pub fn steal(&mut self) -> (got: Stolen)
        ensures
            old(self)@.len() == 0 ==> got is Empty,
            match got {
                Stolen::Taken(s) => old(self)@.len() > 0 && s@ == old(self)@[0] && final(self)@
                    == old(self)@.drop_first(),
                Stolen::Empty => old(self)@.len() == 0 && final(self)@ == old(self)@,
                Stolen::Retry => final(self)@ == old(self)@,
            },
    {
        injector_steal(&mut self.inner)
    }

    /// Moves entries, oldest first, from the queue to the end of `sink` until the
    /// queue is empty or an attempt has to be retried. Returns whether the queue was
    /// emptied: `false` comes only with entries left in the queue, so a queue that
    /// is empty to begin with always gives `true`. Whatever the answer, the entries
    /// of `sink` followed by those still queued are what they were before the call.
    pub fn drain_into(&mut self, sink: &mut Vec<Snapshot>) -> (emptied: bool)
        ensures
            entries(final(sink)@) + final(self)@ == entries(old(sink)@) + old(self)@,
            old(sink)@.len() <= final(sink)@.len(),
            final(sink)@.take(old(sink)@.len() as int) == old(sink)@,
            final(sink)@.len() + final(self)@.len() == old(sink)@.len() + old(self)@.len(),
            emptied == (final(self)@.len() == 0),
            old(self)@.len() == 0 ==> emptied,
    {
        loop
            invariant
                entries(sink@) + self@ == entries(old(sink)@) + old(self)@,
                old(sink)@.len() <= sink@.len(),
                sink@.take(old(sink)@.len() as int) == old(sink)@,
                sink@.len() + self@.len() == old(sink)@.len() + old(self)@.len(),
            decreases self@.len(),
        {
            let ghost before_sink = sink@;
            let ghost before_queue = self@;
            match self.steal() {
                Stolen::Taken(s) => {
                    sink.push(s);
                    assert(entries(sink@) + self@ =~= entries(before_sink) + before_queue);
                    assert(sink@.take(old(sink)@.len() as int) =~= before_sink.take(
                        old(sink)@.len() as int,
                    ));
                },
                Stolen::Empty => {
                    return true;
                },
                Stolen::Retry => {
                    return false;
                },
            }
        }
    }

    /// Number of entries queued.
    pub fn len(&self) -> (n: usize)
        ensures
            n == self@.len(),
    {
        injector_len(&self.inner)
    }
}

} // verus!
