use vstd::prelude::*;
use crate::chunk::Chunk;
use crate::coords::{BlockPos, ChunkPos, Coord};
use crate::server::{ServerWorld, world_block};

verus! {

/// The per-axis data of a ray direction: the sign of each component and its magnitude.
pub struct RayDir {
    pub sx: int,
    pub sy: int,
    pub sz: int,
    pub ax: int,
    pub ay: int,
    pub az: int,
}

/// A point of the grid walk: the block reached, the numerators of the next boundary crossing
/// on each axis (the crossing on axis i lies at ray parameter n_i * 65536 / a_i), the normal
/// of the face last entered, and the distance travelled so far (tn * 65536 / td).
pub struct RayWalk {
    pub px: int,
    pub py: int,
    pub pz: int,
    pub nx: int,
    pub ny: int,
    pub nz: int,
    pub normal_x: int,
    pub normal_y: int,
    pub normal_z: int,
    pub tn: int,
    pub td: int,
}

pub open spec fn sign(v: int) -> int {
    if v > 0 {
        1
    } else if v < 0 {
        -1
    } else {
        0
    }
}

pub open spec fn abs(v: int) -> int {
    if v < 0 {
        -v
    } else {
        v
    }
}

pub open spec fn ray_dir(dx: int, dy: int, dz: int) -> RayDir {
    RayDir { sx: sign(dx), sy: sign(dy), sz: sign(dz), ax: abs(dx), ay: abs(dy), az: abs(dz) }
}

/// Distance, in sub-units, from a position inside a block (offset `frac`) to the block's face
/// that a ray going in direction `s` meets first.
pub open spec fn first_crossing(frac: int, s: int) -> int {
    if s > 0 {
        65536 - frac
    } else {
        frac
    }
}

/// Where the walk of a ray from `origin` in direction `d` starts.
pub open spec fn start_walk(origin: Coord, d: RayDir) -> RayWalk {
    RayWalk {
        px: origin.world_x_v() / 65536,
        py: origin.y_v() / 65536,
        pz: origin.world_z_v() / 65536,
        nx: first_crossing(origin.world_x_v() % 65536, d.sx),
        ny: first_crossing(origin.y_v() % 65536, d.sy),
        nz: first_crossing(origin.world_z_v() % 65536, d.sz),
        normal_x: 0,
        normal_y: 0,
        normal_z: 0,
        tn: 0,
        td: 1,
    }
}

/// Whether the crossing n_a / a_a comes strictly before n_b / a_b; an axis that the ray does
/// not move along (a = 0) never crosses.
pub open spec fn earlier(na: int, aa: int, nb: int, ab: int) -> bool {
    aa > 0 && (ab == 0 || na * ab < nb * aa)
}

/// The axis crossed next (0 = x, 1 = y, 2 = z). Ties go to x before z before y in the first
/// comparison, then y before z.
pub open spec fn next_axis(w: RayWalk, d: RayDir) -> int {
    if earlier(w.nx, d.ax, w.ny, d.ay) {
        if earlier(w.nx, d.ax, w.nz, d.az) {
            0
        } else {
            2
        }
    } else if earlier(w.ny, d.ay, w.nz, d.az) {
        1
    } else {
        2
    }
}

/// One step of the walk: cross the next boundary into the neighbouring block.
pub open spec fn step(w: RayWalk, d: RayDir) -> RayWalk {
    let axis = next_axis(w, d);
    if axis == 0 {
        RayWalk {
            px: w.px + d.sx,
            nx: w.nx + 65536,
            normal_x: -d.sx,
            normal_y: 0,
            normal_z: 0,
            tn: w.nx,
            td: d.ax,
            ..w
        }
    } else if axis == 1 {
        RayWalk {
            py: w.py + d.sy,
            ny: w.ny + 65536,
            normal_x: 0,
            normal_y: -d.sy,
            normal_z: 0,
            tn: w.ny,
            td: d.ay,
            ..w
        }
    } else {
        RayWalk {
            pz: w.pz + d.sz,
            nz: w.nz + 65536,
            normal_x: 0,
            normal_y: 0,
            normal_z: -d.sz,
            tn: w.nz,
            td: d.az,
            ..w
        }
    }
}

/// The walk after `k` steps.
pub open spec fn walk(w0: RayWalk, d: RayDir, k: nat) -> RayWalk
    decreases k,
{
    if k == 0 {
        w0
    } else {
        step(walk(w0, d, (k - 1) as nat), d)
    }
}

/// Whether the distance travelled is still below `max` (an infinite distance never is).
pub open spec fn in_reach(w: RayWalk, max: int) -> bool {
    w.td > 0 && w.tn * 65536 < max * w.td
}

/// Whether the walk stands in a solid block within the height limits.
pub open spec fn hits(world: Map<ChunkPos, Chunk>, w: RayWalk) -> bool {
    0 <= w.py <= 65535 && world_block(
        world,
        BlockPos { x: w.px as i64, y: w.py as i64, z: w.pz as i64 },
    ) != 0
}

/// Whether the walk stops at step `k`: every earlier step was in reach and missed, and step
/// `k` hits or is out of reach.
pub open spec fn stops_at(world: Map<ChunkPos, Chunk>, w0: RayWalk, d: RayDir, max: int, k: nat) -> bool {
    &&& forall|j: nat| j < k ==> in_reach(#[trigger] walk(w0, d, j), max) && !hits(world, walk(w0, d, j))
    &&& !in_reach(walk(w0, d, k), max) || hits(world, walk(w0, d, k))
}

/// A block hit by a ray, and the normal of the face through which the ray entered it (zero
/// when the ray starts inside the block).
#[derive(Clone, Copy, Debug, PartialEq, Eq, Structural)]
pub struct RayHitInfo {
    pub position: BlockPos,
    pub normal_x: i64,
    pub normal_y: i64,
    pub normal_z: i64,
}

/// What the walk reports where it stops.
pub open spec fn outcome(world: Map<ChunkPos, Chunk>, w: RayWalk, max: int) -> Option<RayHitInfo> {
    if in_reach(w, max) && hits(world, w) {
        Some(
            RayHitInfo {
                position: BlockPos { x: w.px as i64, y: w.py as i64, z: w.pz as i64 },
                normal_x: w.normal_x as i64,
                normal_y: w.normal_y as i64,
                normal_z: w.normal_z as i64,
            },
        )
    } else {
        None
    }
}

/// The direction's signs agree with its magnitudes, which are small enough for exact
/// integer arithmetic.
pub open spec fn dir_ok(d: RayDir) -> bool {
    &&& (d.sx == 1 || d.sx == -1 || d.sx == 0) && (d.ax == 0 <==> d.sx == 0)
    &&& (d.sy == 1 || d.sy == -1 || d.sy == 0) && (d.ay == 0 <==> d.sy == 0)
    &&& (d.sz == 1 || d.sz == -1 || d.sz == 0) && (d.az == 0 <==> d.sz == 0)
    &&& 0 <= d.ax <= 0x1_0000_0000
    &&& 0 <= d.ay <= 0x1_0000_0000
    &&& 0 <= d.az <= 0x1_0000_0000
}

/// What holds of one axis during the walk: the crossings taken so far are whole blocks, the
/// block index moved once per crossing, the next crossing is not behind the distance
/// travelled, the last one taken is not ahead of it, and the next crossing is bounded by the
/// reach.
pub open spec fn axis_ok(n: int, n0: int, a: int, p: int, p0: int, s: int, tn: int, td: int, max: int) -> bool {
    &&& 0 <= n0 <= 65536
    &&& n >= n0
    &&& (n - n0) % 65536 == 0
    &&& p == p0 + s * ((n - n0) / 65536)
    &&& (a == 0 ==> n == n0)
    &&& (a > 0 ==> n * td >= tn * a)
    &&& (a > 0 && n > n0 ==> (n - 65536) * td <= tn * a)
    &&& n * 65536 <= max * a + 2 * 65536 * 65536
}

pub open spec fn walk_ok(w: RayWalk, w0: RayWalk, d: RayDir, max: int) -> bool {
    &&& w.td > 0
    &&& w.tn >= 0
    &&& axis_ok(w.nx, w0.nx, d.ax, w.px, w0.px, d.sx, w.tn, w.td, max)
    &&& axis_ok(w.ny, w0.ny, d.ay, w.py, w0.py, d.sy, w.tn, w.td, max)
    &&& axis_ok(w.nz, w0.nz, d.az, w.pz, w0.pz, d.sz, w.tn, w.td, max)
}

/// A quantity that each step of the walk lowers while the walk is in reach.
pub open spec fn walk_measure(w: RayWalk, d: RayDir, max: int) -> int {
    (max * d.ax + 2 * 65536 * 65536 - w.nx * 65536) + (max * d.ay + 2 * 65536 * 65536 - w.ny
        * 65536) + (max * d.az + 2 * 65536 * 65536 - w.nz * 65536)
}

proof fn lemma_earlier_transitive(na: int, aa: int, nb: int, ab: int, nc: int, ac: int)
    requires
        earlier(na, aa, nb, ab),
        earlier(nb, ab, nc, ac),
        ac >= 0,
    ensures
        earlier(na, aa, nc, ac),
{
    if ac > 0 {
        assert(na * ac < nc * aa) by (nonlinear_arith)
            requires na * ab < nb * aa, nb * ac < nc * ab, aa > 0, ab > 0, ac > 0;
    }
}

/// The axis chosen by `next_axis` crosses no later than any other axis.
proof fn lemma_next_axis_first(w: RayWalk, d: RayDir)
    requires
        dir_ok(d),
    ensures
        ({
            let c = next_axis(w, d);
            let (nc, ac) = if c == 0 {
                (w.nx, d.ax)
            } else if c == 1 {
                (w.ny, d.ay)
            } else {
                (w.nz, d.az)
            };
            ac > 0 ==> (!earlier(w.nx, d.ax, nc, ac) && !earlier(w.ny, d.ay, nc, ac) && !earlier(
                w.nz,
                d.az,
                nc,
                ac,
            ))
        }),
{
    if earlier(w.nx, d.ax, w.ny, d.ay) {
        if earlier(w.nz, d.az, w.nx, d.ax) {
            lemma_earlier_transitive(w.nz, d.az, w.nx, d.ax, w.ny, d.ay);
        }
        if !earlier(w.nx, d.ax, w.nz, d.az) && earlier(w.ny, d.ay, w.nz, d.az) {
            lemma_earlier_transitive(w.nx, d.ax, w.ny, d.ay, w.nz, d.az);
        }
    } else if earlier(w.ny, d.ay, w.nz, d.az) {
        if earlier(w.nz, d.az, w.ny, d.ay) {
        }
    } else {
        if d.az > 0 && earlier(w.nx, d.ax, w.nz, d.az) {
            if d.ay > 0 {
                assert(w.ny * d.az >= w.nz * d.ay);
                assert(w.nx * d.ay >= w.ny * d.ax);
                assert(w.nx * d.az < w.nz * d.ax);
                assert(false) by (nonlinear_arith)
                    requires w.ny * d.az >= w.nz * d.ay, w.nx * d.ay >= w.ny * d.ax,
                        w.nx * d.az < w.nz * d.ax, d.ax > 0, d.ay > 0, d.az > 0;
            }
        }
    }
}

/// The axis crossed by a step keeps its invariant.
proof fn lemma_crossed_axis(n: int, n0: int, a: int, p: int, p0: int, s: int, tn: int, td: int, max: int)
    requires
        axis_ok(n, n0, a, p, p0, s, tn, td, max),
        a > 0,
        td > 0,
        tn >= 0,
        tn * 65536 < max * td,
    ensures
        axis_ok(n + 65536, n0, a, p + s, p0, s, n, a, max),
{
    assert(max > 0) by (nonlinear_arith)
        requires tn * 65536 < max * td, td > 0, tn >= 0;
    if n > n0 {
        assert(n * 65536 < max * a + 65536 * 65536) by (nonlinear_arith)
            requires (n - 65536) * td <= tn * a, tn * 65536 < max * td, td > 0, a > 0;
    } else {
        assert(n * 65536 <= 65536 * 65536);
        assert(max * a >= 0) by (nonlinear_arith)
            requires max > 0, a > 0;
    }
    let k = (n - n0) / 65536;
    assert(n - n0 == k * 65536);
    assert((n + 65536 - n0) / 65536 == k + 1);
    assert((n + 65536 - n0) % 65536 == 0);
    assert(p + s == p0 + s * (k + 1)) by (nonlinear_arith)
        requires p == p0 + s * k;
    assert((n + 65536) * a >= n * a) by (nonlinear_arith)
        requires a > 0;
}

/// An axis not crossed by a step keeps its invariant, given that the crossed one came first.
proof fn lemma_other_axis(
    n: int,
    n0: int,
    a: int,
    p: int,
    p0: int,
    s: int,
    tn: int,
    td: int,
    max: int,
    nc: int,
    ac: int,
)
    requires
        axis_ok(n, n0, a, p, p0, s, tn, td, max),
        td > 0,
        ac > 0,
        nc * td >= tn * ac,
        a > 0 ==> n * ac >= nc * a,
    ensures
        axis_ok(n, n0, a, p, p0, s, nc, ac, max),
{
    if a > 0 && n > n0 {
        assert((n - 65536) * ac <= nc * a) by (nonlinear_arith)
            requires (n - 65536) * td <= tn * a, nc * td >= tn * ac, td > 0, ac > 0, a > 0;
    }
}

/// A step in reach along an axis that the ray moves along keeps the walk's invariant and
/// lowers its measure.
proof fn lemma_step(w: RayWalk, w0: RayWalk, d: RayDir, max: int)
    requires
        dir_ok(d),
        walk_ok(w, w0, d, max),
        in_reach(w, max),
        ({
            let c = next_axis(w, d);
            (c == 0 ==> d.ax > 0) && (c == 1 ==> d.ay > 0) && (c == 2 ==> d.az > 0)
        }),
    ensures
        walk_ok(step(w, d), w0, d, max),
        walk_measure(step(w, d), d, max) == walk_measure(w, d, max) - 65536 * 65536,
{
    lemma_next_axis_first(w, d);
    let c = next_axis(w, d);
    if c == 0 {
        lemma_crossed_axis(w.nx, w0.nx, d.ax, w.px, w0.px, d.sx, w.tn, w.td, max);
        lemma_other_axis(w.ny, w0.ny, d.ay, w.py, w0.py, d.sy, w.tn, w.td, max, w.nx, d.ax);
        lemma_other_axis(w.nz, w0.nz, d.az, w.pz, w0.pz, d.sz, w.tn, w.td, max, w.nx, d.ax);
    } else if c == 1 {
        lemma_crossed_axis(w.ny, w0.ny, d.ay, w.py, w0.py, d.sy, w.tn, w.td, max);
        lemma_other_axis(w.nx, w0.nx, d.ax, w.px, w0.px, d.sx, w.tn, w.td, max, w.ny, d.ay);
        lemma_other_axis(w.nz, w0.nz, d.az, w.pz, w0.pz, d.sz, w.tn, w.td, max, w.ny, d.ay);
    } else {
        lemma_crossed_axis(w.nz, w0.nz, d.az, w.pz, w0.pz, d.sz, w.tn, w.td, max);
        lemma_other_axis(w.nx, w0.nx, d.ax, w.px, w0.px, d.sx, w.tn, w.td, max, w.nz, d.az);
        lemma_other_axis(w.ny, w0.ny, d.ay, w.py, w0.py, d.sy, w.tn, w.td, max, w.nz, d.az);
    }
}

/// Bounds that keep the walk's arithmetic within machine integers.
proof fn lemma_axis_bounds(n: int, n0: int, a: int, p: int, p0: int, s: int, tn: int, td: int, max: int)
    requires
        axis_ok(n, n0, a, p, p0, s, tn, td, max),
        0 <= a <= 0x1_0000_0000,
        max <= 0x1_0000_0000_0000,
        -1 <= s <= 1,
    ensures
        0 <= n <= 0x1_0000_0000_0002_0000,
        p0 - 0x2_0000_0000_0000 <= p <= p0 + 0x2_0000_0000_0000,
{
    assert(max * a <= 0x1_0000_0000_0000_0000_0000) by (nonlinear_arith)
        requires 0 <= a <= 0x1_0000_0000, max <= 0x1_0000_0000_0000;
    let k = (n - n0) / 65536;
    assert(0 <= k <= 0x1_0000_0000_0002);
    assert(-k <= s * k <= k) by (nonlinear_arith)
        requires -1 <= s <= 1, k >= 0;
}

/// Whether crossing n_a / a_a comes strictly before n_b / a_b.
fn crosses_earlier(na: i128, aa: i128, nb: i128, ab: i128) -> (r: bool)
    requires
        0 <= na <= 0x1_0000_0000_0002_0000,
        0 <= nb <= 0x1_0000_0000_0002_0000,
        0 <= aa <= 0x1_0000_0000,
        0 <= ab <= 0x1_0000_0000,
    ensures
        r == earlier(na as int, aa as int, nb as int, ab as int),
{
    if aa == 0 {
        return false;
    }
    if ab == 0 {
        return true;
    }
    assert(na * ab <= 0x1_0000_0000_0002_0000 * 0x1_0000_0000) by (nonlinear_arith)
        requires 0 <= na <= 0x1_0000_0000_0002_0000, 0 <= ab <= 0x1_0000_0000;
    assert(nb * aa <= 0x1_0000_0000_0002_0000 * 0x1_0000_0000) by (nonlinear_arith)
        requires 0 <= nb <= 0x1_0000_0000_0002_0000, 0 <= aa <= 0x1_0000_0000;
    na * ab < nb * aa
}

/// Whether the distance travelled, tn * 65536 / td, is below `m`.
fn still_in_reach(tn: i128, td: i128, m: i128) -> (r: bool)
    requires
        0 <= tn <= 0x1_0000_0000_0002_0000,
        0 < td <= 0x1_0000_0000,
        0 < m <= 0x1_0000_0000_0000,
    ensures
        r == (tn * 65536 < m * td),
{
    assert(m * td <= 0x1_0000_0000_0000 * 0x1_0000_0000) by (nonlinear_arith)
        requires 0 < td <= 0x1_0000_0000, 0 < m <= 0x1_0000_0000_0000;
    tn * 65536 < m * td
}

fn sign_of(v: i64) -> (r: i64)
    ensures
        r == sign(v as int),
{
    if v > 0 {
        1
    } else if v < 0 {
        -1
    } else {
        0
    }
}

fn abs_of(v: i64) -> (r: i128)
    ensures
        r == abs(v as int),
{
    if v < 0 {
        -(v as i128)
    } else {
        v as i128
    }
}

/// Walks the grid from `origin` along `direction` and reports the first solid block reached,
/// with the face it was entered through, before the distance travelled reaches
/// `max_distance`. The ray is origin + s * direction / 65536; all quantities are in
/// sub-units, so with a direction of length 65536 the parameter s is the distance.
/// Blocks with y outside [0, 65535] are never hit.
pub fn raycast(world: &ServerWorld, origin: &Coord, direction: (i64, i64, i64), max_distance: i64) -> (r: Option<RayHitInfo>)
    requires
        world.wf(),
        origin.wf(),
        -0x1_0000_0000 <= direction.0 <= 0x1_0000_0000,
        -0x1_0000_0000 <= direction.1 <= 0x1_0000_0000,
        -0x1_0000_0000 <= direction.2 <= 0x1_0000_0000,
        max_distance <= 0x1_0000_0000_0000,
    ensures
        ({
            let d = ray_dir(direction.0 as int, direction.1 as int, direction.2 as int);
            let w0 = start_walk(*origin, d);
            exists|k: nat|
                #[trigger] stops_at(world.chunks_v(), w0, d, max_distance as int, k) && r == outcome(
                    world.chunks_v(),
                    walk(w0, d, k),
                    max_distance as int,
                )
        }),
{
    let ghost wm = world.chunks_v();
    let ghost max = max_distance as int;
    let (dx, dy, dz) = direction;
    let sx = sign_of(dx);
    let sy = sign_of(dy);
    let sz = sign_of(dz);
    let ax = abs_of(dx);
    let ay = abs_of(dy);
    let az = abs_of(dz);
    let ghost d = ray_dir(dx as int, dy as int, dz as int);
    let ghost w0 = start_walk(*origin, d);
    let mut px = origin.get_block_x();
    let mut py = origin.get_block_y();
    let mut pz = origin.get_block_z();
    let fx = origin.get_frac_x() as i128;
    let fy = origin.get_frac_y() as i128;
    let fz = origin.get_frac_z() as i128;
    let mut nx: i128 = if sx > 0 { 65536 - fx } else { fx };
    let mut ny: i128 = if sy > 0 { 65536 - fy } else { fy };
    let mut nz: i128 = if sz > 0 { 65536 - fz } else { fz };
    let mut normal_x: i64 = 0;
    let mut normal_y: i64 = 0;
    let mut normal_z: i64 = 0;
    let mut tn: i128 = 0;
    let mut td: i128 = 1;
    let ghost mut k: nat = 0;
    let m = max_distance as i128;
    if max_distance <= 0 {
        assert(!in_reach(walk(w0, d, 0), max));
        assert(stops_at(wm, w0, d, max, 0));
        return None;
    }
    assert(-0x8_0000_0000 <= w0.px <= 0x8_0000_0000);
    assert(-0x8000_0000_0000 <= w0.py <= 0x8000_0000_0000);
    assert(-0x8_0000_0000 <= w0.pz <= 0x8_0000_0000);
    while still_in_reach(tn, td, m)
        invariant
            wm == world.chunks_v(),
            world.wf(),
            max == max_distance,
            m == max_distance,
            0 < max <= 0x1_0000_0000_0000,
            d == ray_dir(dx as int, dy as int, dz as int),
            direction.0 == dx && direction.1 == dy && direction.2 == dz,
            dir_ok(d),
            w0 == start_walk(*origin, d),
            -0x8_0000_0000 <= w0.px <= 0x8_0000_0000,
            -0x8000_0000_0000 <= w0.py <= 0x8000_0000_0000,
            -0x8_0000_0000 <= w0.pz <= 0x8_0000_0000,
            sx == d.sx,
            sy == d.sy,
            sz == d.sz,
            ax == d.ax,
            ay == d.ay,
            az == d.az,
            walk(w0, d, k) == (RayWalk {
                px: px as int,
                py: py as int,
                pz: pz as int,
                nx: nx as int,
                ny: ny as int,
                nz: nz as int,
                normal_x: normal_x as int,
                normal_y: normal_y as int,
                normal_z: normal_z as int,
                tn: tn as int,
                td: td as int,
            }),
            walk_ok(walk(w0, d, k), w0, d, max),
            0 <= tn <= 0x1_0000_0000_0002_0000,
            0 < td <= 0x1_0000_0000,
            forall|j: nat| j < k ==> in_reach(#[trigger] walk(w0, d, j), max) && !hits(wm, walk(w0, d, j)),
        decreases walk_measure(walk(w0, d, k), d, max),
    {
        let ghost w = walk(w0, d, k);
        if py >= 0 && py <= 65535 && world.get_block(&BlockPos::new(px, py, pz)) != 0 {
            let hit = RayHitInfo { position: BlockPos::new(px, py, pz), normal_x, normal_y, normal_z };
            assert(in_reach(w, max));
            assert(hits(wm, w));
            assert(outcome(wm, w, max) == Some(hit));
            assert(stops_at(wm, w0, d, max, k));
            return Some(hit);
        }
        assert(in_reach(w, max) && !hits(wm, w));
        proof {
            lemma_axis_bounds(w.nx, w0.nx, d.ax, w.px, w0.px, d.sx, w.tn, w.td, max);
            lemma_axis_bounds(w.ny, w0.ny, d.ay, w.py, w0.py, d.sy, w.tn, w.td, max);
            lemma_axis_bounds(w.nz, w0.nz, d.az, w.pz, w0.pz, d.sz, w.tn, w.td, max);
        }
        let axis: u8 = if crosses_earlier(nx, ax, ny, ay) {
            if crosses_earlier(nx, ax, nz, az) { 0 } else { 2 }
        } else if crosses_earlier(ny, ay, nz, az) {
            1
        } else {
            2
        };
        assert(axis == next_axis(w, d));
        let crossed = if axis == 0 { ax } else if axis == 1 { ay } else { az };
        if crossed == 0 {
            assert(!in_reach(walk(w0, d, k + 1), max));
            assert forall|j: nat| j < k + 1 implies in_reach(#[trigger] walk(w0, d, j), max) && !hits(
                wm, walk(w0, d, j)) by {
                if j < k {
                }
            }
            assert(stops_at(wm, w0, d, max, k + 1));
            assert(outcome(wm, walk(w0, d, k + 1), max) == None::<RayHitInfo>);
            return None;
        }
        proof {
            lemma_step(w, w0, d, max);
        }
        if axis == 0 {
            px = px + sx;
            normal_x = -sx;
            normal_y = 0;
            normal_z = 0;
            tn = nx;
            td = ax;
            nx = nx + 65536;
        } else if axis == 1 {
            py = py + sy;
            normal_x = 0;
            normal_y = -sy;
            normal_z = 0;
            tn = ny;
            td = ay;
            ny = ny + 65536;
        } else {
            pz = pz + sz;
            normal_x = 0;
            normal_y = 0;
            normal_z = -sz;
            tn = nz;
            td = az;
            nz = nz + 65536;
        }
        proof {
            assert forall|j: nat| j < k + 1 implies in_reach(#[trigger] walk(w0, d, j), max) && !hits(
                wm, walk(w0, d, j)) by {
                if j < k {
                }
            }
            k = k + 1;
        }
    }
    assert(stops_at(wm, w0, d, max, k));
    None
}

} // verus!
