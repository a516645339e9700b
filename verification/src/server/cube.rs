use vstd::prelude::*;
use std::collections::HashSet;
use crate::common::pos::{ChunkPos, cpos, fits_i32};

verus! {

broadcast use vstd::std_specs::hash::group_hash_axioms;

/// A set of chunk positions.
pub struct ChunkPosSet {
    keys: HashSet<u128>,
}

impl ChunkPosSet {
    pub closed spec fn keys(&self) -> Set<u128> {
        self.keys@
    }

    pub open spec fn has(&self, p: ChunkPos) -> bool {
        self.keys().contains(p.key())
    }

    pub fn new() -> (s: ChunkPosSet)
        ensures
            s.keys() == Set::<u128>::empty(),
    {
        ChunkPosSet { keys: HashSet::new() }
    }

    pub fn contains(&self, p: &ChunkPos) -> (r: bool)
        ensures
            r == self.has(*p),
    {
        self.keys.contains(&p.get_key())
    }

    /// Adds `p`; answers whether it was absent.
    pub fn insert(&mut self, p: ChunkPos) -> (added: bool)
        ensures
            final(self).keys() == old(self).keys().insert(p.key()),
            added == !old(self).has(p),
    {
        self.keys.insert(p.get_key())
    }
}

/// `|a - b|`.
pub open spec fn abs_diff(a: i32, b: i32) -> int {
    if a >= b { a - b } else { b - a }
}

/// Whether `p` lies in the cube of half-size `vd` around `center`: within `vd`
/// chunks of it along each axis.
pub open spec fn in_cube_spec(center: ChunkPos, vd: i32, p: ChunkPos) -> bool {
    abs_diff(p.x, center.x) <= vd && abs_diff(p.y, center.y) <= vd && abs_diff(p.z, center.z) <= vd
}

/// The positions that `cube_range` leaves out.
pub enum Exclusion<'a> {
    /// Positions of the cube of half-size `vd` around `center` (`in_cube`).
    InCube { center: ChunkPos, vd: i32 },
    /// Positions held by a set.
    InSet(&'a ChunkPosSet),
}

pub open spec fn excludes(e: Exclusion, p: ChunkPos) -> bool {
    match e {
        Exclusion::InCube { center, vd } => in_cube_spec(center, vd, p),
        Exclusion::InSet(s) => s.has(p),
    }
}

/// The exclusion can be tested on every position of the cube without overflow.
pub open spec fn exclusion_ok(e: Exclusion, center: ChunkPos, vd: i32) -> bool {
    match e {
        Exclusion::InCube { center: c2, .. } => {
            &&& i32::MIN < center.x - vd - c2.x && center.x + vd - c2.x <= i32::MAX
            &&& i32::MIN < center.y - vd - c2.y && center.y + vd - c2.y <= i32::MAX
            &&& i32::MIN < center.z - vd - c2.z && center.z + vd - c2.z <= i32::MAX
        },
        Exclusion::InSet(_) => true,
    }
}

/// The kept positions of the row `x == center.x + dx`, `y == dy`, with `z` running from
/// `center.z - vd` over its first `j` values.
pub open spec fn row_kept(center: ChunkPos, vd: i32, e: Exclusion, dx: int, dy: int, j: nat) -> Seq<ChunkPos>
    decreases j,
{
    if j == 0 {
        seq![]
    } else {
        let p = cpos(center.x + dx, dy, center.z - vd + (j - 1));
        row_kept(center, vd, e, dx, dy, (j - 1) as nat) + if excludes(e, p) {
            seq![]
        } else {
            seq![p]
        }
    }
}

/// The kept positions of the slab `x == center.x + dx`, over its first `n` layers from
/// `center.y - vd` up.
pub open spec fn slab_kept(center: ChunkPos, vd: i32, e: Exclusion, dx: int, n: nat) -> Seq<ChunkPos>
    decreases n,
{
    if n == 0 {
        seq![]
    } else {
        slab_kept(center, vd, e, dx, (n - 1) as nat) + row_kept(
            center,
            vd,
            e,
            dx,
            center.y - vd + (n - 1),
            (2 * vd + 1) as nat,
        )
    }
}

/// The kept positions of the first `n` slabs of the cube around `center`, from
/// `x == center.x - vd` on: in the order x, then y, then z.
pub open spec fn cube_kept(center: ChunkPos, vd: i32, e: Exclusion, n: nat) -> Seq<ChunkPos>
    decreases n,
{
    if n == 0 {
        seq![]
    } else {
        cube_kept(center, vd, e, (n - 1) as nat) + slab_kept(center, vd, e, (n - 1) - vd, (2 * vd + 1) as nat)
    }
}

/// Square of the horizontal distance between `p` and `center`.
pub open spec fn dist2(p: ChunkPos, center: ChunkPos) -> int {
    (p.x - center.x) * (p.x - center.x) + (p.z - center.z) * (p.z - center.z)
}

/// The elements of `s` at squared horizontal distance `k` from `center`, in order.
pub open spec fn at_dist(s: Seq<ChunkPos>, center: ChunkPos, k: int) -> Seq<ChunkPos>
    decreases s.len(),
{
    if s.len() == 0 {
        seq![]
    } else {
        at_dist(s.drop_last(), center, k) + if dist2(s.last(), center) == k {
            seq![s.last()]
        } else {
            seq![]
        }
    }
}

/// The elements of `s` at squared distances `0..n` from `center`, nearest first, in
/// their order within each distance: `s` stably sorted by distance, when every
/// distance is below `n`.
pub open spec fn by_dist(s: Seq<ChunkPos>, center: ChunkPos, n: nat) -> Seq<ChunkPos>
    decreases n,
{
    if n == 0 {
        seq![]
    } else {
        by_dist(s, center, (n - 1) as nat) + at_dist(s, center, n - 1)
    }
}

/// The positions of the cube of half-size `vd` around `center` that `e` does not
/// exclude, nearest first (by horizontal distance).
pub open spec fn cube_range_spec(center: ChunkPos, vd: i32, e: Exclusion) -> Seq<ChunkPos> {
    let kept = cube_kept(center, vd, e, (2 * vd + 1) as nat);
    if vd < 0 {
        seq![]
    } else {
        by_dist(kept, center, (2 * vd * vd + 1) as nat)
    }
}

/// Limits under which the cube around `center` and its distances fit in `i32`.
pub open spec fn cube_ok(center: ChunkPos, vd: i32) -> bool {
    &&& vd <= 32767
    &&& fits_i32(center.x - vd) && fits_i32(center.x + vd)
    &&& fits_i32(center.y - vd) && fits_i32(center.y + vd)
    &&& fits_i32(center.z - vd) && fits_i32(center.z + vd)
}

/// Exec form of `in_cube_spec`.
pub fn in_cube(center: ChunkPos, vd: i32, p: ChunkPos) -> (r: bool)
    requires
        fits_i32(p.x - center.x),
        fits_i32(p.y - center.y),
        fits_i32(p.z - center.z),
        p.x - center.x != i32::MIN,
        p.y - center.y != i32::MIN,
        p.z - center.z != i32::MIN,
    ensures
        r == in_cube_spec(center, vd, p),
{
    let dx = p.x - center.x;
    let dy = p.y - center.y;
    let dz = p.z - center.z;
    let ax = if dx < 0 { -dx } else { dx };
    let ay = if dy < 0 { -dy } else { dy };
    let az = if dz < 0 { -dz } else { dz };
    ax <= vd && ay <= vd && az <= vd
}

fn is_excluded(e: &Exclusion, p: ChunkPos) -> (r: bool)
    requires
        match *e {
            Exclusion::InCube { center, .. } => fits_i32(p.x - center.x) && fits_i32(p.y - center.y)
                && fits_i32(p.z - center.z) && p.x - center.x != i32::MIN && p.y - center.y != i32::MIN
                && p.z - center.z != i32::MIN,
            Exclusion::InSet(_) => true,
        },
    ensures
        r == excludes(*e, p),
{
    match e {
        Exclusion::InCube { center, vd } => in_cube(*center, *vd, p),
        Exclusion::InSet(s) => s.contains(&p),
    }
}

/// `at_dist` of a prefix grows by the next element when it is at distance `k`.
proof fn lemma_at_dist_step(s: Seq<ChunkPos>, center: ChunkPos, k: int, i: int)
    requires
        0 <= i < s.len(),
    ensures
        at_dist(s.subrange(0, i + 1), center, k) == at_dist(s.subrange(0, i), center, k) + if dist2(
            s[i],
            center,
        ) == k {
            seq![s[i]]
        } else {
            seq![]
        },
{
    assert(s.subrange(0, i + 1).drop_last() =~= s.subrange(0, i));
}

/// Squared horizontal distance of `p` from `center`.
fn distance2(p: ChunkPos, center: ChunkPos) -> (d: i128)
    ensures
        d == dist2(p, center),
{
    let dx = p.x as i128 - center.x as i128;
    let dz = p.z as i128 - center.z as i128;
    proof {
        assert(dx * dx <= 0x1_0000_0000_0000_0000) by (nonlinear_arith)
            requires
                -0x1_0000_0000 <= dx <= 0x1_0000_0000,
        ;
        assert(dz * dz <= 0x1_0000_0000_0000_0000) by (nonlinear_arith)
            requires
                -0x1_0000_0000 <= dz <= 0x1_0000_0000,
        ;
        assert(dx * dx >= 0) by (nonlinear_arith);
        assert(dz * dz >= 0) by (nonlinear_arith);
    }
    dx * dx + dz * dz
}

/// `s` with its elements grouped by squared horizontal distance from `center`, for
/// the distances `0..=max`, nearest first and in their order within a group (a
/// stable sort by distance).
pub fn sort_by_dist(s: &Vec<ChunkPos>, center: ChunkPos, max: u64) -> (r: Vec<ChunkPos>)
    requires
        max < u64::MAX,
    ensures
        r@ == by_dist(s@, center, (max + 1) as nat),
{
    let mut r: Vec<ChunkPos> = Vec::new();
    let mut k: u64 = 0;
    while k <= max
        invariant
            k <= max + 1,
            max < u64::MAX,
            r@ == by_dist(s@, center, k as nat),
        decreases max + 1 - k,
    {
        let mut i: usize = 0;
        let ghost before = r@;
        while i < s.len()
            invariant
                i <= s@.len(),
                k <= max,
                before == by_dist(s@, center, k as nat),
                r@ == before + at_dist(s@.subrange(0, i as int), center, k as int),
            decreases s@.len() - i,
        {
            let p = s[i];
            proof {
                lemma_at_dist_step(s@, center, k as int, i as int);
            }
            if distance2(p, center) == k as i128 {
                r.push(p);
            }
            i = i + 1;
            assert(r@ =~= before + at_dist(s@.subrange(0, i as int), center, k as int));
        }
        assert(s@.subrange(0, s@.len() as int) =~= s@);
        k = k + 1;
    }
    r
}

/// Exec form of `cube_kept` for the whole cube.
fn cube_positions(center: ChunkPos, vd: i32, e: &Exclusion) -> (kept: Vec<ChunkPos>)
    requires
        0 <= vd,
        cube_ok(center, vd),
        exclusion_ok(*e, center, vd),
    ensures
        kept@ == cube_kept(center, vd, *e, (2 * vd + 1) as nat),
{
    let mut kept: Vec<ChunkPos> = Vec::new();
    let mut dx: i32 = -vd;
    while dx <= vd
        invariant
            0 <= vd <= 32767,
            -vd <= dx <= vd + 1,
            cube_ok(center, vd),
            exclusion_ok(*e, center, vd),
            kept@ == cube_kept(center, vd, *e, (dx + vd) as nat),
        decreases vd + 1 - dx,
    {
        let ghost base = kept@;
        let mut dy: i32 = -vd;
        while dy <= vd
            invariant
                0 <= vd <= 32767,
                -vd <= dx <= vd,
                -vd <= dy <= vd + 1,
                cube_ok(center, vd),
                exclusion_ok(*e, center, vd),
                base == cube_kept(center, vd, *e, (dx + vd) as nat),
                kept@ == base + slab_kept(center, vd, *e, dx as int, (dy + vd) as nat),
            decreases vd + 1 - dy,
        {
            let y = center.y + dy;
            let ghost slab_base = kept@;
            let mut dz: i32 = -vd;
            while dz <= vd
                invariant
                    0 <= vd <= 32767,
                    -vd <= dx <= vd,
                    -vd <= dy <= vd,
                    y == center.y + dy,
                    -vd <= dz <= vd + 1,
                    cube_ok(center, vd),
                    exclusion_ok(*e, center, vd),
                    slab_base == base + slab_kept(center, vd, *e, dx as int, (dy + vd) as nat),
                    kept@ == slab_base + row_kept(center, vd, *e, dx as int, y as int, (dz + vd) as nat),
                decreases vd + 1 - dz,
            {
                let p = ChunkPos::from_i32(center.x + dx, y, center.z + dz);
                assert(p == cpos(center.x + dx, y as int, center.z - vd + (dz + vd + 1 - 1)));
                let ghost before = kept@;
                if !is_excluded(e, p) {
                    kept.push(p);
                }
                dz = dz + 1;
                assert(kept@ =~= slab_base + row_kept(center, vd, *e, dx as int, y as int, (dz + vd) as nat));
            }
            dy = dy + 1;
            assert(kept@ =~= base + slab_kept(center, vd, *e, dx as int, (dy + vd) as nat));
        }
        dx = dx + 1;
        assert(kept@ =~= cube_kept(center, vd, *e, (dx + vd) as nat));
    }
    kept
}

/// The positions of the cube of half-size `vd` around `center` that `e` does not
/// exclude, sorted by horizontal distance from `center`, nearest first.
pub fn cube_range(center: ChunkPos, vd: i32, e: &Exclusion) -> (v: Vec<ChunkPos>)
    requires
        cube_ok(center, vd),
        exclusion_ok(*e, center, vd),
    ensures
        v@ == cube_range_spec(center, vd, *e),
{
    if vd < 0 {
        return Vec::new();
    }
    let kept = cube_positions(center, vd, e);
    let vu = vd as u64;
    assert(vu * vu <= 32767 * 32767) by (nonlinear_arith)
        requires
            vu <= 32767,
    ;
    let max = 2 * (vu * vu);
    assert(max + 1 == 2 * vd * vd + 1) by (nonlinear_arith)
        requires
            max == 2 * (vu * vu),
            vu == vd,
    ;
    sort_by_dist(&kept, center, max)
}


proof fn lemma_dist2_nonneg(p: ChunkPos, c: ChunkPos)
    ensures
        dist2(p, c) >= 0,
{
    let dx = p.x - c.x;
    let dz = p.z - c.z;
    assert(dx * dx >= 0 && dz * dz >= 0) by (nonlinear_arith);
}

proof fn lemma_at_dist_contains(s: Seq<ChunkPos>, c: ChunkPos, k: int)
    ensures
        forall|p: ChunkPos| #[trigger] at_dist(s, c, k).contains(p) <==> (s.contains(p) && dist2(p, c) == k),
    decreases s.len(),
{
    broadcast use vstd::seq_lib::group_seq_properties;

    if s.len() > 0 {
        let t = s.drop_last();
        let x = s.last();
        lemma_at_dist_contains(t, c, k);
        assert(s == t.push(x));
        let tail = if dist2(x, c) == k { seq![x] } else { seq![] };
        assert(at_dist(s, c, k) == at_dist(t, c, k) + tail);
        assert forall|p: ChunkPos| #[trigger] at_dist(s, c, k).contains(p) <==> (s.contains(p) && dist2(p, c) == k) by {
            assert(tail.contains(p) <==> (p == x && dist2(x, c) == k)) by {
                if tail.contains(p) {
                    assert(tail[0] == p);
                }
                if p == x && dist2(x, c) == k {
                    assert(tail[0] == p);
                }
            }
        }
    }
}

proof fn lemma_by_dist_props(s: Seq<ChunkPos>, c: ChunkPos, n: nat)
    ensures
        forall|p: ChunkPos| #[trigger] by_dist(s, c, n).contains(p) <==> (s.contains(p) && dist2(p, c) < n),
        forall|i: int, j: int|
            0 <= i <= j < by_dist(s, c, n).len() ==> dist2(#[trigger] by_dist(s, c, n)[i], c) <= dist2(
                #[trigger] by_dist(s, c, n)[j],
                c,
            ),
    decreases n,
{
    broadcast use vstd::seq_lib::group_seq_properties;

    if n > 0 {
        let m = (n - 1) as nat;
        lemma_by_dist_props(s, c, m);
        lemma_at_dist_contains(s, c, m as int);
        let a = by_dist(s, c, m);
        let b = at_dist(s, c, m as int);
        let r = by_dist(s, c, n);
        assert(r == a + b);
        assert forall|p: ChunkPos| #[trigger] r.contains(p) <==> (s.contains(p) && dist2(p, c) < n) by {
            lemma_dist2_nonneg(p, c);
        }

        assert forall|i: int, j: int| 0 <= i <= j < r.len() implies dist2(#[trigger] r[i], c) <= dist2(#[trigger] r[j], c) by {
            if j < a.len() {
                assert(r[i] == a[i] && r[j] == a[j]);
            } else if i < a.len() {
                assert(r[i] == a[i]);
                assert(a.contains(a[i]));
                assert(r[j] == b[j - a.len()]);
                assert(b.contains(b[j - a.len()]));
            } else {
                assert(r[i] == b[i - a.len()]);
                assert(b.contains(b[i - a.len()]));
                assert(r[j] == b[j - a.len()]);
                assert(b.contains(b[j - a.len()]));
            }
        }
    } else {
        assert forall|p: ChunkPos| #[trigger] by_dist(s, c, n).contains(p) <==> (s.contains(p) && dist2(p, c) < n) by {
            lemma_dist2_nonneg(p, c);
        }
    }
}

proof fn lemma_row_kept_contains(c: ChunkPos, vd: i32, e: Exclusion, dx: int, dy: int, j: nat)
    requires
        fits_i32(c.x + dx),
        fits_i32(dy),
        fits_i32(c.z - vd),
        j == 0 || fits_i32(c.z - vd + j - 1),
    ensures
        forall|p: ChunkPos| #[trigger] row_kept(c, vd, e, dx, dy, j).contains(p) <==> (p.x == c.x + dx && p.y
            == dy && c.z - vd <= p.z < c.z - vd + j && !excludes(e, p)),
    decreases j,
{
    broadcast use vstd::seq_lib::group_seq_properties;

    if j > 0 {
        lemma_row_kept_contains(c, vd, e, dx, dy, (j - 1) as nat);
        let q = cpos(c.x + dx, dy, c.z - vd + (j - 1));
        assert(q.x == c.x + dx && q.y == dy && q.z == c.z - vd + (j - 1));
        let tail = if excludes(e, q) { seq![] } else { seq![q] };
        let prev = row_kept(c, vd, e, dx, dy, (j - 1) as nat);
        assert(row_kept(c, vd, e, dx, dy, j) == prev + tail);
        assert forall|p: ChunkPos| #[trigger] row_kept(c, vd, e, dx, dy, j).contains(p) <==> (p.x == c.x + dx
            && p.y == dy && c.z - vd <= p.z < c.z - vd + j && !excludes(e, p)) by {
            assert(tail.contains(p) <==> (p == q && !excludes(e, q))) by {
                if tail.contains(p) {
                    assert(tail[0] == p);
                }
                if p == q && !excludes(e, q) {
                    assert(tail[0] == p);
                }
            }
            if p.x == c.x + dx && p.y == dy && p.z == c.z - vd + (j - 1) {
                assert(p == q);
            }
        }
    }
}

proof fn lemma_slab_kept_contains(c: ChunkPos, vd: i32, e: Exclusion, dx: int, n: nat)
    requires
        0 <= vd,
        n <= 2 * vd + 1,
        fits_i32(c.x + dx),
        fits_i32(c.y - vd),
        fits_i32(c.y + vd),
        fits_i32(c.z - vd),
        fits_i32(c.z + vd),
    ensures
        forall|p: ChunkPos| #[trigger] slab_kept(c, vd, e, dx, n).contains(p) <==> (p.x == c.x + dx
            && c.y - vd <= p.y < c.y - vd + n && c.z - vd <= p.z <= c.z + vd && !excludes(e, p)),
    decreases n,
{
    broadcast use vstd::seq_lib::group_seq_properties;

    if n > 0 {
        lemma_slab_kept_contains(c, vd, e, dx, (n - 1) as nat);
        lemma_row_kept_contains(c, vd, e, dx, c.y - vd + (n - 1), (2 * vd + 1) as nat);
        let prev = slab_kept(c, vd, e, dx, (n - 1) as nat);
        let row = row_kept(c, vd, e, dx, c.y - vd + (n - 1), (2 * vd + 1) as nat);
        assert(slab_kept(c, vd, e, dx, n) == prev + row);
        assert forall|p: ChunkPos| #[trigger] slab_kept(c, vd, e, dx, n).contains(p) <==> (p.x == c.x + dx
            && c.y - vd <= p.y < c.y - vd + n && c.z - vd <= p.z <= c.z + vd && !excludes(e, p)) by {
            assert(prev.contains(p) || row.contains(p) <==> (prev + row).contains(p));
        }
    }
}

proof fn lemma_cube_kept_contains(c: ChunkPos, vd: i32, e: Exclusion, n: nat)
    requires
        0 <= vd,
        n <= 2 * vd + 1,
        cube_ok(c, vd),
    ensures
        forall|p: ChunkPos| #[trigger] cube_kept(c, vd, e, n).contains(p) <==> (c.x - vd <= p.x < c.x - vd + n
            && c.y - vd <= p.y <= c.y + vd && c.z - vd <= p.z <= c.z + vd && !excludes(e, p)),
    decreases n,
{
    broadcast use vstd::seq_lib::group_seq_properties;

    if n > 0 {
        lemma_cube_kept_contains(c, vd, e, (n - 1) as nat);
        lemma_slab_kept_contains(c, vd, e, (n - 1) - vd, (2 * vd + 1) as nat);
        let prev = cube_kept(c, vd, e, (n - 1) as nat);
        let slab = slab_kept(c, vd, e, (n - 1) - vd, (2 * vd + 1) as nat);
        assert(cube_kept(c, vd, e, n) == prev + slab);
        assert forall|p: ChunkPos| #[trigger] cube_kept(c, vd, e, n).contains(p) <==> (c.x - vd <= p.x < c.x
            - vd + n && c.y - vd <= p.y <= c.y + vd && c.z - vd <= p.z <= c.z + vd && !excludes(e, p)) by {
            assert(prev.contains(p) || slab.contains(p) <==> (prev + slab).contains(p));
        }
    }
}

/// `cube_range` lists each position of the cube of half-size `vd` around `center`
/// that `e` does not exclude, and nothing else, ordered by horizontal distance from
/// `center`, nearest first.
pub proof fn lemma_cube_range_contents(center: ChunkPos, vd: i32, e: Exclusion)
    requires
        cube_ok(center, vd),
    ensures
        forall|p: ChunkPos| #[trigger] cube_range_spec(center, vd, e).contains(p) <==> (abs_diff(p.x, center.x)
            <= vd && abs_diff(p.y, center.y) <= vd && abs_diff(p.z, center.z) <= vd && !excludes(e, p)),
        forall|i: int, j: int|
            0 <= i <= j < cube_range_spec(center, vd, e).len() ==> dist2(
                #[trigger] cube_range_spec(center, vd, e)[i],
                center,
            ) <= dist2(#[trigger] cube_range_spec(center, vd, e)[j], center),
{
    broadcast use vstd::seq_lib::group_seq_properties;

    if vd >= 0 {
        let n = (2 * vd + 1) as nat;
        let kept = cube_kept(center, vd, e, n);
        let m = (2 * vd * vd + 1) as nat;
        lemma_cube_kept_contains(center, vd, e, n);
        lemma_by_dist_props(kept, center, m);
        assert forall|p: ChunkPos| #[trigger] cube_range_spec(center, vd, e).contains(p) <==> (abs_diff(
            p.x,
            center.x,
        ) <= vd && abs_diff(p.y, center.y) <= vd && abs_diff(p.z, center.z) <= vd && !excludes(e, p)) by {
            let dx = p.x - center.x;
            let dz = p.z - center.z;
            if abs_diff(p.x, center.x) <= vd && abs_diff(p.z, center.z) <= vd {
                assert(dx * dx + dz * dz < 2 * vd * vd + 1) by (nonlinear_arith)
                    requires
                        -vd <= dx <= vd,
                        -vd <= dz <= vd,
                ;
            }
        }
    }
}

} // verus!
