use crate::fixed::scale;
use crate::fixed::scaled;
use crate::fixed::ONE;
use crate::integrator::near_wall;
use crate::integrator::touches_wall;
use vstd::prelude::*;

verus! {

/// The largest speed, along either axis, that a spawned particle may have.
pub const MAX_VELOCITY: i64 = 500_000;

/// Consecutive rejections after which a spawn is abandoned.
pub const MAX_REJECTIONS: usize = 50;

/// The largest radius and the largest aspect ratio that the placement test supports.
pub const GEOMETRY_LIMIT: i64 = 1_000_000_000;

/// Whether the placement test can be computed for this radius and aspect ratio.
pub open spec fn geometry_supported(radius: i64, aspect_ratio: i64) -> bool {
    0 <= radius <= GEOMETRY_LIMIT && 0 < aspect_ratio <= GEOMETRY_LIMIT
}

/// Decides whether the placement test supports this radius and aspect ratio.
pub fn supports_geometry(radius: i64, aspect_ratio: i64) -> (ok: bool)
    ensures
        ok == geometry_supported(radius, aspect_ratio),
{
    0 <= radius && radius <= GEOMETRY_LIMIT && 0 < aspect_ratio && aspect_ratio <= GEOMETRY_LIMIT
}

/// A sampled position and velocity for one new particle.
#[derive(Clone, Copy, Debug, PartialEq, Eq, Structural)]
pub struct Candidate {
    pub x: i64,
    pub y: i64,
    pub vx: i64,
    pub vy: i64,
}

impl Candidate {
    /// Neither velocity component exceeds the largest speed.
    pub open spec fn slow(&self) -> bool {
        -MAX_VELOCITY <= self.vx <= MAX_VELOCITY && -MAX_VELOCITY <= self.vy <= MAX_VELOCITY
    }

    /// Decides whether neither velocity component exceeds the largest speed.
    pub fn is_slow(&self) -> (ok: bool)
        ensures
            ok == self.slow(),
    {
        -MAX_VELOCITY <= self.vx && self.vx <= MAX_VELOCITY && -MAX_VELOCITY <= self.vy && self.vy
            <= MAX_VELOCITY
    }
}

/// Whether the centres `(px, py)` and `(x, y)` are within two radii of each other,
/// the vertical distance taken in units of the aspect ratio. The comparison is
/// exact: both sides of `dx^2 + (dy / a)^2 <= 4 r^2` are multiplied by `a^2`.
pub open spec fn overlaps(px: int, py: int, x: int, y: int, radius: int, aspect_ratio: int) -> bool {
    (px - x) * (px - x) * (aspect_ratio * aspect_ratio) + (py - y) * (py - y) * (ONE * ONE) <= 4
        * (radius * radius) * (aspect_ratio * aspect_ratio)
}

/// Whether `(x, y)` lies strictly inside the box inset by the radius.
pub open spec fn inside_walls(x: int, y: int, radius: i64, aspect_ratio: i64) -> bool {
    !near_wall(x, radius as int) && !near_wall(y, scaled(radius as int, aspect_ratio as int))
}

/// Whether `(x, y)` overlaps none of the particles of the flattened state.
pub open spec fn clear_of_state(state: Seq<i64>, x: int, y: int, radius: int, aspect_ratio: int) -> bool {
    forall|p: int|
        0 <= p < state.len() / 2 ==> !overlaps(
            #[trigger] state[2 * p] as int,
            state[2 * p + 1] as int,
            x,
            y,
            radius,
            aspect_ratio,
        )
}

/// Whether `(x, y)` overlaps none of the candidates placed so far.
pub open spec fn clear_of_placed(placed: Seq<Candidate>, x: int, y: int, radius: int, aspect_ratio: int) -> bool {
    forall|j: int|
        0 <= j < placed.len() ==> !overlaps(
            (#[trigger] placed[j]).x as int,
            placed[j].y as int,
            x,
            y,
            radius,
            aspect_ratio,
        )
}

/// The placement rule: a candidate is accepted exactly when it lies strictly inside
/// the inset box and overlaps neither an existing particle nor one placed earlier
/// in the same attempt.
pub open spec fn acceptable(
    existing: Seq<i64>,
    placed: Seq<Candidate>,
    c: Candidate,
    radius: i64,
    aspect_ratio: i64,
) -> bool {
    &&& inside_walls(c.x as int, c.y as int, radius, aspect_ratio)
    &&& clear_of_state(existing, c.x as int, c.y as int, radius as int, aspect_ratio as int)
    &&& clear_of_placed(placed, c.x as int, c.y as int, radius as int, aspect_ratio as int)
}

/// Whether every placed candidate was acceptable when it was placed, given the
/// existing particles and the candidates placed before it: each lies strictly
/// inside the inset box, and no two centres are within two radii of each other.
pub open spec fn well_spaced(
    existing: Seq<i64>,
    placed: Seq<Candidate>,
    radius: i64,
    aspect_ratio: i64,
) -> bool {
    forall|j: int|
        0 <= j < placed.len() ==> acceptable(
            existing,
            placed.take(j),
            #[trigger] placed[j],
            radius,
            aspect_ratio,
        )
}

/// Placing an acceptable candidate keeps the placed candidates well spaced.
pub proof fn lemma_well_spaced_push(
    existing: Seq<i64>,
    placed: Seq<Candidate>,
    c: Candidate,
    radius: i64,
    aspect_ratio: i64,
)
    requires
        well_spaced(existing, placed, radius, aspect_ratio),
        acceptable(existing, placed, c, radius, aspect_ratio),
    ensures
        well_spaced(existing, placed.push(c), radius, aspect_ratio),
{
    let grown = placed.push(c);
    assert forall|j: int| 0 <= j < grown.len() implies acceptable(
        existing,
        grown.take(j),
        #[trigger] grown[j],
        radius,
        aspect_ratio,
    ) by {
        if j < placed.len() {
            assert(grown.take(j) =~= placed.take(j));
            assert(grown[j] == placed[j]);
        } else {
            assert(grown.take(j) =~= placed);
        }
    }
}

/// Decides whether two centres overlap.
pub fn centres_overlap(px: i64, py: i64, x: i64, y: i64, radius: i64, aspect_ratio: i64) -> (hit:
    bool)
    requires
        geometry_supported(radius, aspect_ratio),
    ensures
        hit == overlaps(px as int, py as int, x as int, y as int, radius as int, aspect_ratio as int),
{
    let dx: i128 = px as i128 - x as i128;
    let dy: i128 = py as i128 - y as i128;
    let r: i128 = radius as i128;
    let a: i128 = aspect_ratio as i128;
    if dx > 2_000_000_000 || dx < -2_000_000_000 {
        assert(dx * dx * (a * a) + dy * dy * (1_000_000 * 1_000_000) > 4 * (r * r) * (a * a))
            by (nonlinear_arith)
            requires
                dx > 2_000_000_000 || dx < -2_000_000_000,
                0 <= r <= 1_000_000_000,
                0 < a,
        ;
        return false;
    }
    if dy > 2_000_000_000_000 || dy < -2_000_000_000_000 {
        assert(dx * dx * (a * a) + dy * dy * (1_000_000 * 1_000_000) > 4 * (r * r) * (a * a))
            by (nonlinear_arith)
            requires
                dy > 2_000_000_000_000 || dy < -2_000_000_000_000,
                0 <= r <= 1_000_000_000,
                0 < a <= 1_000_000_000,
        ;
        return false;
    }
    assert(0 <= dx * dx <= 4_000_000_000_000_000_000) by (nonlinear_arith)
        requires
            -2_000_000_000 <= dx <= 2_000_000_000,
    ;
    assert(0 <= dy * dy <= 4_000_000_000_000_000_000_000_000) by (nonlinear_arith)
        requires
            -2_000_000_000_000 <= dy <= 2_000_000_000_000,
    ;
    assert(0 <= a * a <= 1_000_000_000_000_000_000) by (nonlinear_arith)
        requires
            0 < a <= 1_000_000_000,
    ;
    assert(0 <= r * r <= 1_000_000_000_000_000_000) by (nonlinear_arith)
        requires
            0 <= r <= 1_000_000_000,
    ;
    let dx2: i128 = dx * dx;
    let dy2: i128 = dy * dy;
    let a2: i128 = a * a;
    let r2: i128 = r * r;
    assert(0 <= dx2 * a2 <= 4_000_000_000_000_000_000_000_000_000_000_000_000)
        by (nonlinear_arith)
        requires
            0 <= dx2 <= 4_000_000_000_000_000_000,
            0 <= a2 <= 1_000_000_000_000_000_000,
    ;
    assert(0 <= dy2 * 1_000_000_000_000 <= 4_000_000_000_000_000_000_000_000_000_000_000_000)
        by (nonlinear_arith)
        requires
            0 <= dy2 <= 4_000_000_000_000_000_000_000_000,
    ;
    assert(0 <= (4 * r2) * a2 <= 4_000_000_000_000_000_000_000_000_000_000_000_000)
        by (nonlinear_arith)
        requires
            0 <= r2 <= 1_000_000_000_000_000_000,
            0 <= a2 <= 1_000_000_000_000_000_000,
    ;
    let left: i128 = dx2 * a2 + dy2 * 1_000_000_000_000;
    let right: i128 = (4 * r2) * a2;
    assert(1_000_000 * 1_000_000 == 1_000_000_000_000int) by (nonlinear_arith);
    assert(4 * (r * r) * (a * a) == (4 * (r * r)) * (a * a)) by (nonlinear_arith);
    left <= right
}

/// Decides the placement rule for one candidate.
pub fn is_acceptable(
    existing: &Vec<i64>,
    placed: &Vec<Candidate>,
    c: Candidate,
    radius: i64,
    aspect_ratio: i64,
) -> (ok: bool)
    requires
        geometry_supported(radius, aspect_ratio),
    ensures
        ok == acceptable(existing@, placed@, c, radius, aspect_ratio),
{
    if touches_wall(c.x, radius as i128) {
        return false;
    }
    if touches_wall(c.y, scale(radius, aspect_ratio)) {
        return false;
    }
    let len: usize = existing.len();
    let particles: usize = len / 2;
    let mut p: usize = 0;
    while p < particles
        invariant
            len == existing@.len(),
            particles == len / 2,
            p <= particles,
            geometry_supported(radius, aspect_ratio),
            forall|q: int|
                0 <= q < p ==> !overlaps(
                    #[trigger] existing@[2 * q] as int,
                    existing@[2 * q + 1] as int,
                    c.x as int,
                    c.y as int,
                    radius as int,
                    aspect_ratio as int,
                ),
        decreases particles - p,
    {
        if centres_overlap(existing[2 * p], existing[2 * p + 1], c.x, c.y, radius, aspect_ratio) {
            return false;
        }
        p += 1;
    }
    let mut j: usize = 0;
    while j < placed.len()
        invariant
            j <= placed@.len(),
            geometry_supported(radius, aspect_ratio),
            forall|k: int|
                0 <= k < j ==> !overlaps(
                    (#[trigger] placed@[k]).x as int,
                    placed@[k].y as int,
                    c.x as int,
                    c.y as int,
                    radius as int,
                    aspect_ratio as int,
                ),
        decreases placed@.len() - j,
    {
        if centres_overlap(placed[j].x, placed[j].y, c.x, c.y, radius, aspect_ratio) {
            return false;
        }
        j += 1;
    }
    true
}

/// The progress of one all-or-nothing attempt to place `wanted` new particles.
pub struct SpawnAttempt {
    /// How many particles the attempt is to place.
    pub wanted: usize,
    /// The candidates accepted so far, in the order of their acceptance.
    pub placed: Vec<Candidate>,
    /// How many candidates in a row were rejected since the last acceptance.
    pub rejected: usize,
}

impl SpawnAttempt {
    /// Every accepted candidate is slow, and no more were accepted than wanted.
    pub open spec fn wf(&self) -> bool {
        &&& self.placed@.len() <= self.wanted
        &&& self.rejected <= MAX_REJECTIONS
        &&& forall|j: int| 0 <= j < self.placed@.len() ==> (#[trigger] self.placed@[j]).slow()
    }

    /// All the wanted particles have found a place.
    pub open spec fn complete(&self) -> bool {
        self.placed@.len() == self.wanted
    }

    /// The attempt was given up: too many candidates in a row were rejected.
    pub open spec fn abandoned(&self) -> bool {
        !self.complete() && self.rejected >= MAX_REJECTIONS
    }

    /// The attempt still needs candidates.
    pub open spec fn sampling(&self) -> bool {
        !self.complete() && self.rejected < MAX_REJECTIONS
    }

    /// An attempt that has placed nothing yet.
    pub fn new(wanted: usize) -> (attempt: SpawnAttempt)
        ensures
            attempt.wf(),
            attempt.wanted == wanted,
            attempt.placed@ == Seq::<Candidate>::empty(),
            attempt.rejected == 0,
    {
        SpawnAttempt { wanted, placed: Vec::new(), rejected: 0 }
    }

    /// Decides whether all the wanted particles have found a place.
    pub fn is_complete(&self) -> (done: bool)
        ensures
            done == self.complete(),
    {
        self.placed.len() == self.wanted
    }

    /// Decides whether the attempt still needs candidates.
    pub fn is_sampling(&self) -> (more: bool)
        ensures
            more == self.sampling(),
    {
        self.placed.len() != self.wanted && self.rejected < MAX_REJECTIONS
    }

    /// Judges one candidate against the particles in `existing` and those placed
    /// earlier in this attempt. An accepted candidate is recorded and clears the
    /// count of rejections; a rejected one raises it by one.
    pub fn offer(&mut self, existing: &Vec<i64>, radius: i64, aspect_ratio: i64, c: Candidate) -> (accepted:
        bool)
        requires
            old(self).wf(),
            old(self).sampling(),
            c.slow(),
            geometry_supported(radius, aspect_ratio),
        ensures
            final(self).wf(),
            final(self).wanted == old(self).wanted,
            accepted == acceptable(existing@, old(self).placed@, c, radius, aspect_ratio),
            accepted ==> final(self).placed@ == old(self).placed@.push(c) && final(self).rejected
                == 0,
            !accepted ==> final(self).placed@ == old(self).placed@ && final(self).rejected == old(
                self,
            ).rejected + 1,
    {
        if is_acceptable(existing, &self.placed, c, radius, aspect_ratio) {
            self.placed.push(c);
            self.rejected = 0;
            true
        } else {
            self.rejected = self.rejected + 1;
            false
        }
    }
}

} // verus!
