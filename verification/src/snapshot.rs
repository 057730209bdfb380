use vstd::prelude::*;

verus! {

/// The flattened positions of every particle at one instant: `state[2 * i]` is the
/// horizontal and `state[2 * i + 1]` the vertical coordinate of particle `i`, both in
/// millionths of the half-width of the box. `time` is in millionths of a second.
#[derive(Debug, PartialEq, Eq)]
pub struct Snapshot {
    pub time: i64,
    pub state: Vec<i64>,
}

impl View for Snapshot {
    type V = (i64, Seq<i64>);

    open spec fn view(&self) -> (i64, Seq<i64>) {
        (self.time, self.state@)
    }
}

impl Snapshot {
    /// A copy that shares nothing with `self`.
    pub fn duplicate(&self) -> (copy: Snapshot)
        ensures
            copy@ == self@,
    {
        Snapshot { time: self.time, state: copy_of(&self.state) }
    }
}

/// The times and states of a run of snapshots, in the same order.
pub open spec fn entries(snapshots: Seq<Snapshot>) -> Seq<(i64, Seq<i64>)> {
    Seq::new(snapshots.len(), |i: int| snapshots[i]@)
}

/// An element-by-element copy of `source`.
pub fn copy_of(source: &Vec<i64>) -> (copy: Vec<i64>)
    ensures
        copy@ == source@,
{
    let mut copy: Vec<i64> = Vec::with_capacity(source.len());
    let mut i: usize = 0;
    while i < source.len()
        invariant
            i <= source.len(),
            copy@ == source@.take(i as int),
        decreases source.len() - i,
    {
        copy.push(source[i]);
        i += 1;
    }
    assert(source@.take(source.len() as int) == source@);
    copy
}

/// A vector of `len` zeros.
pub fn zeros(len: usize) -> (v: Vec<i64>)
    ensures
        v@ == Seq::new(len as nat, |i: int| 0i64),
{
    let mut v: Vec<i64> = Vec::with_capacity(len);
    let mut i: usize = 0;
    while i < len
        invariant
            i <= len,
            v@ == Seq::new(i as nat, |k: int| 0i64),
        decreases len - i,
    {
        v.push(0);
        i += 1;
    }
    v
}

} // verus!
