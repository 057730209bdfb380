use crate::snapshot::copy_of;
use crate::snapshot::Snapshot;
use vstd::prelude::*;

verus! {

/// The weighted mean `before * (num / den) + after * (1 - num / den)` of two
/// coordinates: the later sample, moved toward the earlier one by the fraction
/// `num / den` of their distance. The distance moved is rounded toward zero.
pub open spec fn mix(before: int, after: int, num: int, den: int) -> int {
    if before >= after {
        after + ((before - after) * num) / den
    } else {
        after - ((after - before) * num) / den
    }
}

/// Whether two samples bracket the time `t` and can be blended: the earlier one
/// lies before `t`, the later one at or after it, and both hold as many coordinates.
pub open spec fn brackets(before: (i64, Seq<i64>), after: (i64, Seq<i64>), t: i64) -> bool {
    before.0 < t <= after.0 && before.1.len() == after.1.len()
}

/// The state shown for the time `t`, given the last sample before `t` and the first
/// at or after it. The earlier sample has the weight `(t - t0) / (t1 - t0)`, the
/// later one the rest. Samples that do not bracket `t` are not blended: the later
/// one is shown as it is.
pub open spec fn blend(before: (i64, Seq<i64>), after: (i64, Seq<i64>), t: i64) -> Seq<i64> {
    if brackets(before, after, t) {
        Seq::new(
            after.1.len(),
            |i: int|
                mix(before.1[i] as int, after.1[i] as int, t - before.0, after.0 - before.0) as i64,
        )
    } else {
        after.1
    }
}

/// The fraction of a distance is no longer than the distance.
pub proof fn lemma_fraction_bounded(distance: int, num: int, den: int)
    requires
        0 <= distance,
        0 < num <= den,
    ensures
        0 <= (distance * num) / den <= distance,
        num == den ==> (distance * num) / den == distance,
{
    assert(0 <= distance * num <= distance * den) by (nonlinear_arith)
        requires
            0 <= distance,
            0 < num <= den,
    ;
    assert((distance * num) / den <= distance) by (nonlinear_arith)
        requires
            0 <= distance * num <= distance * den,
            0 < den,
    ;
    assert(0 <= (distance * num) / den) by (nonlinear_arith)
        requires
            0 <= distance * num,
            0 < den,
    ;
    if num == den {
        assert((distance * den) / den == distance) by (nonlinear_arith)
            requires
                0 < den,
        ;
    }
}

/// A blended coordinate lies between the two samples, and at the later sample's
/// own time it is the earlier sample's coordinate.
pub proof fn lemma_mix_between(before: int, after: int, num: int, den: int)
    requires
        0 < num <= den,
    ensures
        before <= after ==> before <= mix(before, after, num, den) <= after,
        after <= before ==> after <= mix(before, after, num, den) <= before,
        num == den ==> mix(before, after, num, den) == before,
{
    if before >= after {
        lemma_fraction_bounded(before - after, num, den);
    } else {
        lemma_fraction_bounded(after - before, num, den);
    }
}

/// Computes the blended coordinate.
pub fn mix_coordinate(before: i64, after: i64, num: u64, den: u64) -> (mixed: i64)
    requires
        0 < num <= den,
    ensures
        mixed == mix(before as int, after as int, num as int, den as int),
{
    proof {
        lemma_mix_between(before as int, after as int, num as int, den as int);
    }
    if before >= after {
        let distance: u128 = (before as i128 - after as i128) as u128;
        assert(distance * (num as u128) <= 0xffff_ffff_ffff_ffff * 0xffff_ffff_ffff_ffff)
            by (nonlinear_arith)
            requires
                0 <= distance <= 0xffff_ffff_ffff_ffff,
                0 <= num <= 0xffff_ffff_ffff_ffff,
        ;
        let moved: u128 = (distance * (num as u128)) / (den as u128);
        proof {
            lemma_fraction_bounded(distance as int, num as int, den as int);
        }
        (after as i128 + moved as i128) as i64
    } else {
        let distance: u128 = (after as i128 - before as i128) as u128;
        assert(distance * (num as u128) <= 0xffff_ffff_ffff_ffff * 0xffff_ffff_ffff_ffff)
            by (nonlinear_arith)
            requires
                0 <= distance <= 0xffff_ffff_ffff_ffff,
                0 <= num <= 0xffff_ffff_ffff_ffff,
        ;
        let moved: u128 = (distance * (num as u128)) / (den as u128);
        proof {
            lemma_fraction_bounded(distance as int, num as int, den as int);
        }
        (after as i128 - moved as i128) as i64
    }
}

/// Computes the state shown for the time `t` from the last sample before `t` and
/// the first at or after it.
pub fn blend_states(before: &Snapshot, after: &Snapshot, t: i64) -> (shown: Vec<i64>)
    ensures
        shown@ == blend(before@, after@, t),
{
    if !(before.time < t && t <= after.time && before.state.len() == after.state.len()) {
        return copy_of(&after.state);
    }
    let num: u64 = (t as i128 - before.time as i128) as u64;
    let den: u64 = (after.time as i128 - before.time as i128) as u64;
    let n: usize = after.state.len();
    let mut shown: Vec<i64> = Vec::with_capacity(n);
    let mut i: usize = 0;
    while i < n
        invariant
            n == after.state@.len(),
            n == before.state@.len(),
            0 < num <= den,
            num == t - before.time,
            den == after.time - before.time,
            brackets(before@, after@, t),
            i <= n,
            shown@.len() == i,
            forall|k: int| 0 <= k < i ==> #[trigger] shown@[k] == blend(before@, after@, t)[k],
        decreases n - i,
    {
        shown.push(mix_coordinate(before.state[i], after.state[i], num, den));
        i += 1;
    }
    assert(shown@ =~= blend(before@, after@, t));
    shown
}

} // verus!
