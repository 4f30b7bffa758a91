//! How the particles of a simulation are split into chunks, and how one chunk
//! is laid out as a three-dimensional grid of compute workgroups.
//!
//! A chunk holds as many particles as fit in one compute dispatch: at most
//! `dimension_limit` workgroups along each of three axes, and at most
//! `max_storage_binding_size` bytes of particle vertices in one storage buffer.

use vstd::prelude::*;
use vstd::math::{min, max};

verus! {

/// Bytes taken by one particle vertex: a position of four 32-bit floats.
pub const PARTICLE_VERTEX_SIZE: u32 = 16;

/// The workgroup grid of one particle chunk: `x * y * z` particles, one per
/// workgroup.
pub struct ChunkLayout {
    particle_count_total: u32,
    particle_count_x: u32,
    particle_count_y: u32,
    particle_count_z: u32,
}

/// The grid that one sizing pass proposes for `goal` particles when no axis
/// may exceed `limit`: as long as possible along `x`, then `y`, then `z`.
pub open spec fn attempt_dims(goal: int, limit: int) -> (int, int, int) {
    let x = min(goal, limit);
    let y = min(max(goal / x, 1), limit);
    let z = min(max(goal / (x * y), 1), limit);
    (x, y, z)
}

/// The number of particles of the grid that one sizing pass proposes.
pub open spec fn attempt_total(goal: int, limit: int) -> int {
    let (x, y, z) = attempt_dims(goal, limit);
    x * y * z
}

/// The grid chosen for a chunk: the first proposal when its vertices fit in
/// one storage binding, else the proposal for as many particles as the
/// binding can hold (never more than `goal`).
pub open spec fn chunk_layout_dims(goal: int, limit: int, max_bytes: int) -> (int, int, int) {
    if attempt_total(goal, limit) * PARTICLE_VERTEX_SIZE <= max_bytes {
        attempt_dims(goal, limit)
    } else {
        attempt_dims(min(goal, max_bytes / PARTICLE_VERTEX_SIZE as int), limit)
    }
}

/// The inputs on which sizing a chunk succeeds: at least one particle and
/// one workgroup per axis, no overflow of the byte count of the first
/// proposal, and room for at least one vertex if that proposal does not fit.
pub open spec fn chunk_layout_defined(goal: int, limit: int, max_bytes: int) -> bool {
    &&& goal >= 1
    &&& limit >= 1
    &&& attempt_total(goal, limit) * PARTICLE_VERTEX_SIZE <= u32::MAX
    &&& (attempt_total(goal, limit) * PARTICLE_VERTEX_SIZE <= max_bytes
        || max_bytes >= PARTICLE_VERTEX_SIZE)
}

/// Every proposal is a non-empty grid within the limit holding no more than
/// `goal` particles.
pub proof fn lemma_attempt_bounds(goal: int, limit: int)
    requires
        goal >= 1,
        limit >= 1,
    ensures
        ({
            let (x, y, z) = attempt_dims(goal, limit);
            &&& 1 <= x <= limit
            &&& 1 <= y <= limit
            &&& 1 <= z <= limit
            &&& 1 <= x * y <= goal
            &&& 1 <= x * y * z <= goal
        }),
{
    let (x, y, z) = attempt_dims(goal, limit);
    let q1 = goal / x;
    assert(1 <= q1 && x * q1 <= goal) by (nonlinear_arith)
        requires
            1 <= x <= goal,
            q1 == goal / x,
    ;
    assert(1 <= x * y <= goal) by (nonlinear_arith)
        requires
            1 <= x,
            1 <= y <= q1,
            x * q1 <= goal,
    ;
    let xy = x * y;
    let q2 = goal / xy;
    assert(1 <= q2 && xy * q2 <= goal) by (nonlinear_arith)
        requires
            1 <= xy <= goal,
            q2 == goal / xy,
    ;
    assert(1 <= xy * z <= goal) by (nonlinear_arith)
        requires
            1 <= xy,
            1 <= z <= q2,
            xy * q2 <= goal,
    ;
}

/// One sizing pass: the grid of `attempt_dims` and its particle count.
fn propose_dims(goal: u32, limit: u32) -> (r: (u32, u32, u32, u32))
    requires
        goal >= 1,
        limit >= 1,
    ensures
        (r.0 as int, r.1 as int, r.2 as int) == attempt_dims(goal as int, limit as int),
        r.3 == attempt_total(goal as int, limit as int),
        r.3 == r.0 * r.1 * r.2,
        1 <= r.0 <= limit,
        1 <= r.1 <= limit,
        1 <= r.2 <= limit,
        1 <= r.3 <= goal,
{
    proof {
        lemma_attempt_bounds(goal as int, limit as int);
    }
    let x = if goal < limit { goal } else { limit };
    let q1 = goal / x;
    let m1 = if q1 > 1 { q1 } else { 1 };
    let y = if m1 < limit { m1 } else { limit };
    let xy = x * y;
    let q2 = goal / xy;
    let m2 = if q2 > 1 { q2 } else { 1 };
    let z = if m2 < limit { m2 } else { limit };
    (x, y, z, xy * z)
}

impl ChunkLayout {
    /// Number of particles in the chunk.
    pub closed spec fn total(self) -> int {
        self.particle_count_total as int
    }

    /// Workgroups along the three axes of the chunk's dispatch.
    pub closed spec fn dims(self) -> (int, int, int) {
        (self.particle_count_x as int, self.particle_count_y as int, self.particle_count_z as int)
    }

    /// Number of particles in the chunk.
    pub fn get_particle_count(&self) -> (r: u32)
        ensures
            r == self.total(),
    {
        self.particle_count_total
    }

    /// Workgroups to dispatch along `x`, `y` and `z` to update the chunk.
    pub fn workgroups(&self) -> (r: (u32, u32, u32))
        ensures
            (r.0 as int, r.1 as int, r.2 as int) == self.dims(),
    {
        (self.particle_count_x, self.particle_count_y, self.particle_count_z)
    }

    /// Bytes of a buffer that holds one element of `element_size` bytes per
    /// particle of the chunk.
    pub fn buffer_size(&self, element_size: u64) -> (r: u64)
        requires
            self.total() * element_size <= u64::MAX,
        ensures
            r == self.total() * element_size,
    {
        (self.particle_count_total as u64) * element_size
    }

    /// Sizes a chunk as `new` does, or `None` on exactly the inputs on which
    /// sizing fails (see `chunk_layout_defined`).
    pub fn try_new(og_particle_count_goal: u32, dimension_limit: u32, max_storage_binding_size: u32) -> (r: Option<Self>)
        ensures
            r is Some <==> chunk_layout_defined(
                og_particle_count_goal as int,
                dimension_limit as int,
                max_storage_binding_size as int,
            ),
            r matches Some(l) ==> l.dims() == chunk_layout_dims(
                og_particle_count_goal as int,
                dimension_limit as int,
                max_storage_binding_size as int,
            ) && l.total() == l.dims().0 * l.dims().1 * l.dims().2,
            og_particle_count_goal >= 1 && dimension_limit >= 1
                && og_particle_count_goal * PARTICLE_VERTEX_SIZE <= u32::MAX
                && max_storage_binding_size >= PARTICLE_VERTEX_SIZE ==> r is Some,
            og_particle_count_goal >= 1 && dimension_limit >= 1
                && og_particle_count_goal * PARTICLE_VERTEX_SIZE <= max_storage_binding_size ==> r is Some,
            r is Some ==> og_particle_count_goal >= 1 && dimension_limit >= 1,
            r matches Some(l) ==> 1 <= l.total() <= og_particle_count_goal
                && l.total() * PARTICLE_VERTEX_SIZE <= max_storage_binding_size,
            r matches Some(l) ==> ({
                let e = if attempt_total(og_particle_count_goal as int, dimension_limit as int)
                    * PARTICLE_VERTEX_SIZE <= max_storage_binding_size {
                    og_particle_count_goal as int
                } else {
                    (max_storage_binding_size / 16) as int
                };
                let (x, y, z) = l.dims();
                &&& x == (if e < dimension_limit { e } else { dimension_limit as int })
                &&& x * y <= e
                &&& y < dimension_limit ==> x * (y + 1) > e
                &&& x * y * z <= e
                &&& z < dimension_limit ==> x * y * (z + 1) > e
            }),
    {
        proof {
            lemma_layout_defined_when(
                og_particle_count_goal as int,
                dimension_limit as int,
                max_storage_binding_size as int,
            );
        }
        if og_particle_count_goal == 0 || dimension_limit == 0 {
            return None;
        }
        let (_, _, _, total) = propose_dims(og_particle_count_goal, dimension_limit);
        let bytes = (total as u64) * (PARTICLE_VERTEX_SIZE as u64);
        if bytes > u32::MAX as u64 {
            return None;
        }
        if bytes > max_storage_binding_size as u64 && max_storage_binding_size < PARTICLE_VERTEX_SIZE {
            return None;
        }
        Some(Self::new(og_particle_count_goal, dimension_limit, max_storage_binding_size))
    }

    /// Sizes a chunk for `og_particle_count_goal` particles: the grid of
    /// `chunk_layout_dims`, retried with fewer particles when the vertices of
    /// the first proposal do not fit in `max_storage_binding_size` bytes.
    pub fn new(og_particle_count_goal: u32, dimension_limit: u32, max_storage_binding_size: u32) -> (r: Self)
        requires
            chunk_layout_defined(
                og_particle_count_goal as int,
                dimension_limit as int,
                max_storage_binding_size as int,
            ),
        ensures
            r.dims() == chunk_layout_dims(
                og_particle_count_goal as int,
                dimension_limit as int,
                max_storage_binding_size as int,
            ),
            r.total() == r.dims().0 * r.dims().1 * r.dims().2,
            1 <= r.dims().0 <= dimension_limit,
            1 <= r.dims().1 <= dimension_limit,
            1 <= r.dims().2 <= dimension_limit,
            1 <= r.total() <= og_particle_count_goal,
            r.total() * PARTICLE_VERTEX_SIZE <= max_storage_binding_size,
            ({
                let e = if attempt_total(og_particle_count_goal as int, dimension_limit as int)
                    * PARTICLE_VERTEX_SIZE <= max_storage_binding_size {
                    og_particle_count_goal as int
                } else {
                    (max_storage_binding_size / 16) as int
                };
                let (x, y, z) = r.dims();
                &&& x == (if e < dimension_limit { e } else { dimension_limit as int })
                &&& x * y <= e
                &&& y < dimension_limit ==> x * (y + 1) > e
                &&& x * y * z <= e
                &&& z < dimension_limit ==> x * y * (z + 1) > e
            }),
    {
        let og = og_particle_count_goal;
        let limit = dimension_limit;
        let max_bytes = max_storage_binding_size;
        let mut particle_count_goal = og;
        let mut particle_count_total: u32;
        let mut particle_count_x: u32;
        let mut particle_count_y: u32;
        let mut particle_count_z: u32;
        loop
            invariant_except_break
                1 <= particle_count_goal <= og,
                limit >= 1,
                chunk_layout_defined(og as int, limit as int, max_bytes as int),
                particle_count_goal == og || (
                    particle_count_goal == max_bytes / PARTICLE_VERTEX_SIZE
                    && attempt_total(og as int, limit as int) * PARTICLE_VERTEX_SIZE > max_bytes
                ),
            ensures
                (particle_count_x as int, particle_count_y as int, particle_count_z as int)
                    == chunk_layout_dims(og as int, limit as int, max_bytes as int),
                particle_count_total == particle_count_x * particle_count_y * particle_count_z,
                1 <= particle_count_x <= limit,
                1 <= particle_count_y <= limit,
                1 <= particle_count_z <= limit,
                1 <= particle_count_total <= og,
                particle_count_total * PARTICLE_VERTEX_SIZE <= max_bytes,
            decreases
                if particle_count_goal == og { 1int } else { 0int },
        {
            let goal = particle_count_goal;
            let (x, y, z, total) = propose_dims(goal, limit);
            particle_count_x = x;
            particle_count_y = y;
            particle_count_z = z;
            particle_count_total = total;
            proof {
                if goal != og {
                    assert(particle_count_total * PARTICLE_VERTEX_SIZE <= max_bytes) by (nonlinear_arith)
                        requires
                            particle_count_total <= goal,
                            goal == max_bytes / PARTICLE_VERTEX_SIZE,
                            PARTICLE_VERTEX_SIZE == 16,
                    ;
                }
            }
            if particle_count_total * PARTICLE_VERTEX_SIZE <= max_bytes {
                break;
            }
            proof {
                assert(og > max_bytes / PARTICLE_VERTEX_SIZE) by (nonlinear_arith)
                    requires
                        particle_count_total <= og,
                        particle_count_total * 16 > max_bytes,
                        PARTICLE_VERTEX_SIZE == 16,
                ;
                assert(max_bytes / PARTICLE_VERTEX_SIZE >= 1);
            }
            let cap = max_bytes / PARTICLE_VERTEX_SIZE;
            particle_count_goal = if particle_count_goal < cap { particle_count_goal } else { cap };
        }
        proof {
            lemma_layout_is_greedy(og as int, limit as int, max_bytes as int);
        }
        ChunkLayout { particle_count_total, particle_count_x, particle_count_y, particle_count_z }
    }
}

/// Sum of a sequence of particle counts.
pub open spec fn count_sum(s: Seq<u32>) -> int
    decreases s.len(),
{
    if s.len() == 0 {
        0
    } else {
        count_sum(s.drop_last()) + s.last()
    }
}

/// The chunk goals for `n` particles with at most `limit` per chunk: a
/// chunk of `min(n, limit)` followed by the goals of the rest.
pub open spec fn chunk_goals_spec(n: int, limit: int) -> Seq<u32>
    decreases n,
{
    if n <= 0 || limit <= 0 {
        Seq::empty()
    } else {
        let c = min(n, limit);
        seq![c as u32] + chunk_goals_spec(n - c, limit)
    }
}

/// Splits `particle_count` particles into chunk goals of at most
/// `dimension_limit` particles: full chunks first, then the rest.
///
/// The goals add up to `particle_count`, each is between one and the limit,
/// and every goal but the last is exactly the limit.
pub fn chunk_goals(particle_count: u32, dimension_limit: u32) -> (r: Vec<u32>)
    requires
        particle_count == 0 || dimension_limit >= 1,
    ensures
        r@ == chunk_goals_spec(particle_count as int, dimension_limit as int),
        count_sum(r@) == particle_count,
        forall|i: int| 0 <= i < r@.len() ==> 1 <= #[trigger] r@[i] <= dimension_limit,
        forall|i: int| 0 <= i < r@.len() - 1 ==> #[trigger] r@[i] == dimension_limit,
{
    let mut goals: Vec<u32> = Vec::new();
    let mut particles_to_init = particle_count;
    while particles_to_init != 0
        invariant
            particles_to_init == 0 || dimension_limit >= 1,
            count_sum(goals@) + particles_to_init == particle_count,
            forall|i: int| 0 <= i < goals@.len() ==> 1 <= #[trigger] goals@[i] <= dimension_limit,
            forall|i: int| 0 <= i < goals@.len() - 1 ==> #[trigger] goals@[i] == dimension_limit,
            goals@.len() > 0 && goals@.last() < dimension_limit ==> particles_to_init == 0,
            goals@ + chunk_goals_spec(particles_to_init as int, dimension_limit as int)
                == chunk_goals_spec(particle_count as int, dimension_limit as int),
        decreases particles_to_init,
    {
        let chunk_size = if particles_to_init < dimension_limit {
            particles_to_init
        } else {
            dimension_limit
        };
        let ghost old_goals = goals@;
        let ghost rest = chunk_goals_spec(particles_to_init - chunk_size, dimension_limit as int);
        assert(chunk_goals_spec(particles_to_init as int, dimension_limit as int)
            == seq![chunk_size] + rest);
        goals.push(chunk_size);
        assert(goals@.drop_last() =~= old_goals);
        assert(goals@ + rest =~= old_goals + (seq![chunk_size] + rest));
        particles_to_init = particles_to_init - chunk_size;
    }
    assert(goals@ + chunk_goals_spec(0, dimension_limit as int) =~= goals@);
    goals
}

/// Index of the first particle of each chunk when chunks of `counts`
/// particles are laid end to end: the sum of the counts before it.
pub fn chunk_offsets(counts: &Vec<u32>) -> (r: Vec<u32>)
    requires
        count_sum(counts@) <= u32::MAX,
    ensures
        r@.len() == counts@.len(),
        forall|i: int| 0 <= i < r@.len() ==> #[trigger] r@[i] == count_sum(counts@.take(i)),
        r@.len() > 0 ==> r@[0] == 0,
        forall|i: int| 0 <= i < r@.len() - 1 ==> #[trigger] r@[i + 1] == r@[i] + counts@[i],
        r@.len() > 0 ==> r@.last() + counts@.last() == count_sum(counts@),
{
    let mut offsets: Vec<u32> = Vec::new();
    let mut current_offset: u32 = 0;
    let mut i: usize = 0;
    while i < counts.len()
        invariant
            i <= counts@.len(),
            count_sum(counts@) <= u32::MAX,
            offsets@.len() == i,
            current_offset == count_sum(counts@.take(i as int)),
            forall|j: int| 0 <= j < i ==> #[trigger] offsets@[j] == count_sum(counts@.take(j)),
        decreases counts@.len() - i,
    {
        offsets.push(current_offset);
        assert(counts@.take(i as int + 1).drop_last() =~= counts@.take(i as int));
        proof {
            lemma_count_sum_prefix_le(counts@, i as int + 1);
        }
        current_offset = current_offset + counts[i];
        i = i + 1;
    }
    proof {
        assert forall|j: int| 0 <= j < offsets@.len() - 1 implies #[trigger] offsets@[j + 1]
            == offsets@[j] + counts@[j] by {
            lemma_offsets_tile(counts@, j);
        }
        if counts@.len() > 0 {
            lemma_offsets_tile(counts@, counts@.len() - 1);
            assert(counts@.take(counts@.len() as int) =~= counts@);
        }
        assert(counts@.take(0) =~= Seq::<u32>::empty());
    }
    offsets
}

/// A chunk starts where the chunk before it ends: the sum up to and
/// including chunk `i` is the sum before it plus its own count.
pub proof fn lemma_offsets_tile(counts: Seq<u32>, i: int)
    requires
        0 <= i < counts.len(),
    ensures
        count_sum(counts.take(i + 1)) == count_sum(counts.take(i)) + counts[i],
{
    assert(counts.take(i + 1).drop_last() =~= counts.take(i));
}

/// The sum of a prefix is at most the sum of the whole sequence.
pub proof fn lemma_count_sum_prefix_le(s: Seq<u32>, n: int)
    requires
        0 <= n <= s.len(),
    ensures
        count_sum(s.take(n)) <= count_sum(s),
    decreases s.len() - n,
{
    if n < s.len() {
        lemma_count_sum_prefix_le(s, n + 1);
        assert(s.take(n + 1).drop_last() =~= s.take(n));
    } else {
        assert(s.take(n) =~= s);
    }
}

/// A goal within the workgroup limit whose vertices fit in one binding is
/// laid out as one row of exactly `goal` workgroups.
pub proof fn lemma_small_goal_layout(goal: int, limit: int, max_bytes: int)
    requires
        1 <= goal <= limit,
        goal * PARTICLE_VERTEX_SIZE <= max_bytes,
    ensures
        attempt_dims(goal, limit) == (goal, 1int, 1int),
        chunk_layout_dims(goal, limit, max_bytes) == (goal, 1int, 1int),
{
    lemma_small_goal_attempt(goal, limit);
}

/// Chunks that each hold no more particles than their goal hold no more
/// particles in all than the goals add up to.
pub proof fn lemma_totals_within_goals(counts: Seq<u32>, goals: Seq<u32>)
    requires
        counts.len() == goals.len(),
        forall|i: int| 0 <= i < counts.len() ==> #[trigger] counts[i] <= goals[i],
    ensures
        count_sum(counts) <= count_sum(goals),
    decreases counts.len(),
{
    if counts.len() > 0 {
        lemma_totals_within_goals(counts.drop_last(), goals.drop_last());
    }
}

/// The particle counts of a sequence of chunk layouts.
pub open spec fn layout_totals(layouts: Seq<ChunkLayout>) -> Seq<u32> {
    layouts.map_values(|l: ChunkLayout| l.total() as u32)
}

/// The inputs on which every chunk of `particle_count` particles can be
/// sized: no particles at all, or at least one workgroup per axis, a first
/// chunk whose byte count fits in 32 bits, and room for one vertex.
pub open spec fn plan_defined(particle_count: int, limit: int, max_bytes: int) -> bool {
    particle_count == 0 || (
        limit >= 1
        && min(particle_count, limit) * PARTICLE_VERTEX_SIZE <= u32::MAX
        && max_bytes >= PARTICLE_VERTEX_SIZE
    )
}

/// Sizes every chunk of a simulation of `particle_count` particles: one
/// layout per goal of `chunk_goals`, or `None` on exactly the inputs on
/// which some goal cannot be sized.
///
/// The chunks never hold more particles in all than `particle_count`, and
/// hold exactly that many when a full chunk's vertices fit in one binding.
pub fn plan_chunks(particle_count: u32, dimension_limit: u32, max_storage_binding_size: u32) -> (r: Option<Vec<ChunkLayout>>)
    ensures
        r is Some <==> plan_defined(
            particle_count as int,
            dimension_limit as int,
            max_storage_binding_size as int,
        ),
        particle_count == 0 || (
            dimension_limit >= 1
            && max_storage_binding_size >= PARTICLE_VERTEX_SIZE
            && (if particle_count < dimension_limit { particle_count } else { dimension_limit })
                * PARTICLE_VERTEX_SIZE <= u32::MAX
        ) ==> r is Some,
        r is Some ==> particle_count == 0 || (
            dimension_limit >= 1 && max_storage_binding_size >= PARTICLE_VERTEX_SIZE
        ),
        r matches Some(v) ==> {
            let goals = chunk_goals_spec(particle_count as int, dimension_limit as int);
            &&& v@.len() == goals.len()
            &&& forall|i: int| 0 <= i < v@.len() ==> (#[trigger] v@[i]).dims() == chunk_layout_dims(
                goals[i] as int,
                dimension_limit as int,
                max_storage_binding_size as int,
            ) && v@[i].total() == v@[i].dims().0 * v@[i].dims().1 * v@[i].dims().2
                && 1 <= v@[i].total() <= goals[i]
            &&& count_sum(layout_totals(v@)) <= particle_count
            &&& min(particle_count as int, dimension_limit as int) * PARTICLE_VERTEX_SIZE
                <= max_storage_binding_size ==> count_sum(layout_totals(v@)) == particle_count
        },
{
    if particle_count != 0 {
        if dimension_limit == 0 || max_storage_binding_size < PARTICLE_VERTEX_SIZE {
            return None;
        }
        let first = if particle_count < dimension_limit { particle_count } else { dimension_limit };
        let first_wide = first as u64;
        assert(first_wide * 16 <= u64::MAX);
        if first_wide * (PARTICLE_VERTEX_SIZE as u64) > u32::MAX as u64 {
            return None;
        }
    }
    let goals = chunk_goals(particle_count, dimension_limit);
    let ghost first_goal = min(particle_count as int, dimension_limit as int);
    let mut layouts: Vec<ChunkLayout> = Vec::new();
    let mut i: usize = 0;
    while i < goals.len()
        invariant
            i <= goals@.len(),
            layouts@.len() == i,
            goals@ == chunk_goals_spec(particle_count as int, dimension_limit as int),
            count_sum(goals@) == particle_count,
            forall|j: int| 0 <= j < goals@.len() ==> 1 <= #[trigger] goals@[j] <= dimension_limit,
            plan_defined(particle_count as int, dimension_limit as int, max_storage_binding_size as int),
            first_goal == min(particle_count as int, dimension_limit as int),
            forall|j: int| 0 <= j < i ==> (#[trigger] layouts@[j]).dims() == chunk_layout_dims(
                goals@[j] as int,
                dimension_limit as int,
                max_storage_binding_size as int,
            ) && layouts@[j].total() == layouts@[j].dims().0 * layouts@[j].dims().1 * layouts@[j].dims().2
                && 1 <= layouts@[j].total() <= goals@[j]
                && (first_goal * PARTICLE_VERTEX_SIZE <= max_storage_binding_size ==> layouts@[j].total() == goals@[j]),
        decreases goals@.len() - i,
    {
        let goal = goals[i];
        proof {
            lemma_count_sum_elem_le(goals@, i as int);
            lemma_attempt_bounds(goal as int, dimension_limit as int);
            lemma_small_goal_attempt(goal as int, dimension_limit as int);
            if first_goal * PARTICLE_VERTEX_SIZE <= max_storage_binding_size {
                lemma_small_goal_layout(goal as int, dimension_limit as int, max_storage_binding_size as int);
            }
        }
        let layout = ChunkLayout::new(goal, dimension_limit, max_storage_binding_size);
        layouts.push(layout);
        i = i + 1;
    }
    proof {
        let totals = layout_totals(layouts@);
        assert forall|j: int| 0 <= j < totals.len() implies #[trigger] totals[j] <= goals@[j] by {
            assert(layouts@[j].total() <= goals@[j]);
        }
        lemma_totals_within_goals(totals, goals@);
        if first_goal * PARTICLE_VERTEX_SIZE <= max_storage_binding_size {
            assert(totals =~= goals@);
        }
    }
    Some(layouts)
}

/// No element of a sequence of counts exceeds its sum.
pub proof fn lemma_count_sum_elem_le(s: Seq<u32>, i: int)
    requires
        0 <= i < s.len(),
    ensures
        s[i] <= count_sum(s),
    decreases s.len(),
{
    if i < s.len() - 1 {
        lemma_count_sum_elem_le(s.drop_last(), i);
        assert(s.drop_last()[i] == s[i]);
    }
    lemma_count_sum_nonneg(s.drop_last());
}

/// A sum of counts is never negative.
pub proof fn lemma_count_sum_nonneg(s: Seq<u32>)
    ensures
        count_sum(s) >= 0,
    decreases s.len(),
{
    if s.len() > 0 {
        lemma_count_sum_nonneg(s.drop_last());
    }
}

/// A goal within the workgroup limit is proposed as one row of exactly
/// `goal` workgroups.
pub proof fn lemma_small_goal_attempt(goal: int, limit: int)
    requires
        1 <= goal <= limit,
    ensures
        attempt_dims(goal, limit) == (goal, 1int, 1int),
        attempt_total(goal, limit) == goal,
{
    assert(goal / goal == 1) by (nonlinear_arith)
        requires
            goal >= 1,
    ;
    assert(goal * 1 == goal);
}

/// A proposal is greedy: `x` takes as many workgroups as the goal and the
/// limit allow, `y` as many whole rows of `x` as fit in the goal, and `z` as
/// many whole layers of `x * y` as fit, each axis capped by the limit and
/// at least one.
pub proof fn lemma_attempt_is_greedy(goal: int, limit: int)
    requires
        goal >= 1,
        limit >= 1,
    ensures
        ({
            let (x, y, z) = attempt_dims(goal, limit);
            &&& x == (if goal < limit { goal } else { limit })
            &&& 1 <= y <= limit
            &&& x * y <= goal
            &&& y < limit ==> x * (y + 1) > goal
            &&& 1 <= z <= limit
            &&& x * y * z <= goal
            &&& z < limit ==> x * y * (z + 1) > goal
            &&& attempt_total(goal, limit) == x * y * z
        }),
{
    lemma_attempt_bounds(goal, limit);
    let (x, y, z) = attempt_dims(goal, limit);
    let q1 = goal / x;
    assert(x * (q1 + 1) > goal) by (nonlinear_arith)
        requires
            x >= 1,
            q1 == goal / x,
    ;
    let xy = x * y;
    let q2 = goal / xy;
    assert(xy * (q2 + 1) > goal) by (nonlinear_arith)
        requires
            xy >= 1,
            q2 == goal / xy,
    ;
    assert(x * y * (z + 1) == xy * (z + 1));
}

/// The grid of a chunk is the greedy proposal for its effective goal: the
/// goal itself when the proposal for it fits in one binding, else as many
/// particles as the binding holds vertices (never capped by the workgroup
/// limit, which only caps each axis).
pub proof fn lemma_layout_is_greedy(goal: int, limit: int, max_bytes: int)
    requires
        goal >= 1,
        limit >= 1,
        attempt_total(goal, limit) * PARTICLE_VERTEX_SIZE <= max_bytes
            || max_bytes >= PARTICLE_VERTEX_SIZE,
    ensures
        ({
            let e = if attempt_total(goal, limit) * PARTICLE_VERTEX_SIZE <= max_bytes {
                goal
            } else {
                max_bytes / 16
            };
            let (x, y, z) = chunk_layout_dims(goal, limit, max_bytes);
            &&& 1 <= e <= goal
            &&& e < goal ==> e * 16 <= max_bytes < (e + 1) * 16
            &&& x == (if e < limit { e } else { limit })
            &&& 1 <= y <= limit
            &&& x * y <= e
            &&& y < limit ==> x * (y + 1) > e
            &&& 1 <= z <= limit
            &&& x * y * z <= e
            &&& z < limit ==> x * y * (z + 1) > e
            &&& x * y * z * 16 <= max_bytes
        }),
{
    lemma_attempt_is_greedy(goal, limit);
    if attempt_total(goal, limit) * PARTICLE_VERTEX_SIZE > max_bytes {
        let e = max_bytes / 16;
        assert(goal > e && e >= 1 && e * 16 <= max_bytes < (e + 1) * 16) by (nonlinear_arith)
            requires
                attempt_total(goal, limit) <= goal,
                attempt_total(goal, limit) * 16 > max_bytes,
                max_bytes >= 16,
                e == max_bytes / 16,
        ;
        assert(min(goal, max_bytes / PARTICLE_VERTEX_SIZE as int) == e);
        lemma_attempt_is_greedy(e, limit);
        let (x, y, z) = attempt_dims(e, limit);
        assert(x * y * z * 16 <= max_bytes) by (nonlinear_arith)
            requires
                x * y * z <= e,
                e * 16 <= max_bytes,
        ;
    }
}

/// A goal can be sized whenever its vertices fit in one binding, or their
/// byte count fits in 32 bits and the binding holds at least one vertex.
pub proof fn lemma_layout_defined_when(goal: int, limit: int, max_bytes: int)
    ensures
        goal >= 1 && limit >= 1 && goal * PARTICLE_VERTEX_SIZE <= u32::MAX
            && max_bytes >= PARTICLE_VERTEX_SIZE ==> chunk_layout_defined(goal, limit, max_bytes),
        goal >= 1 && limit >= 1 && goal * PARTICLE_VERTEX_SIZE <= max_bytes
            && max_bytes <= u32::MAX ==> chunk_layout_defined(goal, limit, max_bytes),
        chunk_layout_defined(goal, limit, max_bytes) ==> goal >= 1 && limit >= 1,
{
    if goal >= 1 && limit >= 1 {
        lemma_attempt_bounds(goal, limit);
        assert(attempt_total(goal, limit) * 16 <= goal * 16) by (nonlinear_arith)
            requires
                attempt_total(goal, limit) <= goal,
        ;
    }
}

/// Every chunk goal is between one and the smaller of the particle count
/// and the limit, and the first is exactly that smaller value.
pub proof fn lemma_chunk_goals_bounds(n: int, limit: int)
    requires
        n >= 0,
        1 <= limit <= u32::MAX,
    ensures
        forall|i: int| 0 <= i < chunk_goals_spec(n, limit).len() ==> 1 <= #[trigger] chunk_goals_spec(n, limit)[i]
            <= min(n, limit),
        n > 0 ==> chunk_goals_spec(n, limit).len() > 0 && chunk_goals_spec(n, limit)[0] == min(n, limit),
    decreases n,
{
    if n > 0 {
        let c = min(n, limit);
        lemma_chunk_goals_bounds(n - c, limit);
        let rest = chunk_goals_spec(n - c, limit);
        let s = chunk_goals_spec(n, limit);
        assert(s == seq![c as u32] + rest);
        assert(c as u32 == c);
        assert(s[0] == c as u32);
        assert forall|i: int| 0 <= i < s.len() implies 1 <= #[trigger] s[i] <= min(n, limit) by {
            if i > 0 {
                assert(s[i] == rest[i - 1]);
            }
        }
    }
}

/// A plan exists exactly when every chunk goal can be sized on its own
/// (and, with particles to place, the limit allows at least one workgroup).
pub proof fn lemma_plan_defined_iff_goals_sizable(particle_count: int, limit: int, max_bytes: int)
    requires
        0 <= particle_count <= u32::MAX,
        0 <= limit <= u32::MAX,
        0 <= max_bytes <= u32::MAX,
    ensures
        particle_count > 0 && limit == 0 ==> !plan_defined(particle_count, limit, max_bytes),
        limit >= 1 ==> (plan_defined(particle_count, limit, max_bytes) <==> forall|i: int|
            0 <= i < chunk_goals_spec(particle_count, limit).len() ==> chunk_layout_defined(
                #[trigger] chunk_goals_spec(particle_count, limit)[i] as int,
                limit,
                max_bytes,
            )),
{
    if limit >= 1 {
        let goals = chunk_goals_spec(particle_count, limit);
        lemma_chunk_goals_bounds(particle_count, limit);
        if plan_defined(particle_count, limit, max_bytes) {
            assert forall|i: int| 0 <= i < goals.len() implies chunk_layout_defined(
                #[trigger] goals[i] as int,
                limit,
                max_bytes,
            ) by {
                let g = goals[i] as int;
                lemma_small_goal_attempt(g, limit);
                assert(g * 16 <= min(particle_count, limit) * 16) by (nonlinear_arith)
                    requires
                        g <= min(particle_count, limit),
                ;
            }
        }
        if particle_count > 0 && (forall|i: int| 0 <= i < goals.len() ==> chunk_layout_defined(
            #[trigger] goals[i] as int,
            limit,
            max_bytes,
        )) {
            assert(chunk_layout_defined(goals[0] as int, limit, max_bytes));
            lemma_small_goal_attempt(goals[0] as int, limit);
        }
    }
}

} // verus!
