//! The rotation transform: a forward mapping that sends every source cell of
//! a character grid through a rotation and writes its character into the
//! nearest destination cell, last writer wins in row-major scan order.
//!
//! All arithmetic is integer fixed-point: a sine or cosine is carried as a
//! signed integer scaled by `TRIG_ONE`, and positions are rounded back to the
//! grid with round-half-away-from-zero division.

use vstd::prelude::*;
use crate::grid::CharGrid;
use crate::grid::blank_cells;

verus! {

/// Fixed-point scale of one: a trig value `v` stands for the real `v / TRIG_ONE`.
pub const TRIG_ONE: i64 = 65536;

/// `TRIG_ONE` squared.
pub const TRIG_ONE_SQ: i64 = 65536 * 65536;

/// `TRIG_ONE` cubed.
pub const TRIG_ONE_CUBE: i64 = 65536 * 65536 * 65536;

/// The sine and cosine of one angle, each scaled by `TRIG_ONE`.
#[derive(Clone, Copy, PartialEq, Eq, Structural)]
pub struct Trig {
    pub sin: i64,
    pub cos: i64,
}

/// Scaled sine and cosine of the three axis angles.
#[derive(Clone, Copy, PartialEq, Eq, Structural)]
pub struct Trig3 {
    pub x: Trig,
    pub y: Trig,
    pub z: Trig,
}

/// Both components stay within the scale of one.
pub open spec fn trig_in_range(t: Trig) -> bool {
    &&& -65536 <= t.sin <= 65536
    &&& -65536 <= t.cos <= 65536
}

pub open spec fn trig3_in_range(t: Trig3) -> bool {
    trig_in_range(t.x) && trig_in_range(t.y) && trig_in_range(t.z)
}

/// The trig pair of angle zero.
pub open spec fn trig_zero_spec() -> Trig {
    Trig { sin: 0, cos: 65536 }
}

/// Round-half-away-from-zero division by a positive divisor, the rounding
/// the transform uses to snap a rotated position to the grid.
pub open spec fn rdiv_spec(n: int, d: int) -> int {
    if n >= 0 {
        (n + d / 2) / d
    } else {
        -((-n + d / 2) / d)
    }
}

/// Round-half-away-from-zero division.
pub fn rdiv(n: i64, d: i64) -> (q: i64)
    requires
        0 < d <= 0x4000000000000000,
        -0x4000000000000000 < n < 0x4000000000000000,
    ensures
        q == rdiv_spec(n as int, d as int),
{
    if n >= 0 {
        let q: u64 = ((n as u64) + (d as u64) / 2) / (d as u64);
        assert(q <= n) by (nonlinear_arith)
            requires
                q == ((n as int) + (d as int) / 2) / (d as int),
                0 <= n,
                0 < d,
        ;
        q as i64
    } else {
        let m: u64 = (((-n) as u64) + (d as u64) / 2) / (d as u64);
        assert(m <= -n) by (nonlinear_arith)
            requires
                m == ((-(n as int)) + (d as int) / 2) / (d as int),
                n < 0,
                0 < d,
        ;
        -(m as i64)
    }
}

/// Where the single-axis rotation sends source cell `(x, y)` of a `w` by `h`
/// grid: center, rotate by the angle whose scaled trig pair is `t`, translate
/// back, and round half away from zero.
pub open spec fn target2_spec(t: Trig, w: int, h: int, x: int, y: int) -> (int, int) {
    let dx = x - w / 2;
    let dy = y - h / 2;
    let nx = dx * t.cos - dy * t.sin;
    let ny = dx * t.sin + dy * t.cos;
    (
        rdiv_spec(nx + (w / 2) * 65536, 65536int),
        rdiv_spec(ny + (h / 2) * 65536, 65536int),
    )
}

/// Where the three-axis rotation sends source cell `(x, y)`: the combined
/// transform rotates about X, Y and Z in turn, with the intermediate depth
/// term feeding only the Z step, translates back, and rounds half away from
/// zero onto the grid.
pub open spec fn target3_spec(t: Trig3, w: int, h: int, x: int, y: int) -> (int, int) {
    let dx = x - w / 2;
    let dy = y - h / 2;
    let nx = dx * t.y.cos - dy * t.y.sin;
    let ny = dx * t.x.sin * t.y.sin + dy * t.x.cos * 65536;
    let nz = dx * t.x.cos * t.y.sin - dy * t.x.sin * 65536;
    let fx = rdiv_spec(
        nx * t.z.cos * 65536 - nz * t.z.sin + (w / 2) * (65536int * 65536 * 65536),
        65536int * 65536 * 65536,
    );
    let fy = rdiv_spec(ny + (h / 2) * (65536int * 65536), 65536int * 65536);
    (fx, fy)
}

/// Compute the single-axis target of one source cell.
pub fn target2(t: &Trig, w: usize, h: usize, x: usize, y: usize) -> (p: (i64, i64))
    requires
        trig_in_range(*t),
        1 <= w <= 1024,
        1 <= h <= 1024,
        x < w,
        y < h,
    ensures
        (p.0 as int, p.1 as int) == target2_spec(*t, w as int, h as int, x as int, y as int),
{
    let cx = (w / 2) as i64;
    let cy = (h / 2) as i64;
    let dx = x as i64 - cx;
    let dy = y as i64 - cy;
    let s = t.sin;
    let c = t.cos;
    assert(-0x8000000 <= dx * c <= 0x8000000 && -0x8000000 <= dy * s <= 0x8000000
        && -0x8000000 <= dx * s <= 0x8000000 && -0x8000000 <= dy * c <= 0x8000000)
        by (nonlinear_arith)
        requires
            -1024 <= dx <= 1024,
            -1024 <= dy <= 1024,
            -65536 <= s <= 65536,
            -65536 <= c <= 65536,
    ;
    let nx = dx * c - dy * s;
    let ny = dx * s + dy * c;
    let fx = rdiv(nx + cx * TRIG_ONE, TRIG_ONE);
    let fy = rdiv(ny + cy * TRIG_ONE, TRIG_ONE);
    (fx, fy)
}

/// Compute the three-axis target of one source cell.
pub fn target3(t: &Trig3, w: usize, h: usize, x: usize, y: usize) -> (p: (i64, i64))
    requires
        trig3_in_range(*t),
        1 <= w <= 1024,
        1 <= h <= 1024,
        x < w,
        y < h,
    ensures
        (p.0 as int, p.1 as int) == target3_spec(*t, w as int, h as int, x as int, y as int),
{
    let cx = (w / 2) as i64;
    let cy = (h / 2) as i64;
    let dx = x as i64 - cx;
    let dy = y as i64 - cy;
    let sx = t.x.sin;
    let cxx = t.x.cos;
    let sy = t.y.sin;
    let cyy = t.y.cos;
    let sz = t.z.sin;
    let cz = t.z.cos;
    assert(-0x8000000 <= dx * cyy <= 0x8000000 && -0x8000000 <= dy * sy <= 0x8000000)
        by (nonlinear_arith)
        requires
            -1024 <= dx <= 1024,
            -1024 <= dy <= 1024,
            -65536 <= sy <= 65536,
            -65536 <= cyy <= 65536,
    ;
    let nx = dx * cyy - dy * sy;
    assert(-0x8000000 <= dx * sx <= 0x8000000 && -0x8000000 <= dy * cxx <= 0x8000000
        && -0x8000000 <= dx * cxx <= 0x8000000 && -0x8000000 <= dy * sx <= 0x8000000
        && -0x80000000000 <= dx * sx * sy <= 0x80000000000
        && -0x80000000000 <= dy * cxx * 65536 <= 0x80000000000
        && -0x80000000000 <= dx * cxx * sy <= 0x80000000000
        && -0x80000000000 <= dy * sx * 65536 <= 0x80000000000)
        by (nonlinear_arith)
        requires
            -1024 <= dx <= 1024,
            -1024 <= dy <= 1024,
            -65536 <= sx <= 65536,
            -65536 <= cxx <= 65536,
            -65536 <= sy <= 65536,
    ;
    let ny = dx * sx * sy + dy * cxx * TRIG_ONE;
    let nz = dx * cxx * sy - dy * sx * TRIG_ONE;
    assert(-0x1000000000000000 <= nx * cz * 65536 <= 0x1000000000000000
        && -0x1000000000000000 <= nz * sz <= 0x1000000000000000)
        by (nonlinear_arith)
        requires
            -0x10000000 <= nx <= 0x10000000,
            -0x100000000000 <= nz <= 0x100000000000,
            -65536 <= sz <= 65536,
            -65536 <= cz <= 65536,
    ;
    let fxn = nx * cz * TRIG_ONE - nz * sz + cx * TRIG_ONE_CUBE;
    let fx = rdiv(fxn, TRIG_ONE_CUBE);
    let fy = rdiv(ny + cy * TRIG_ONE_SQ, TRIG_ONE_SQ);
    (fx, fy)
}

/// The trig triple of all three angles zero.
pub open spec fn trig3_zero_spec() -> Trig3 {
    Trig3 { x: trig_zero_spec(), y: trig_zero_spec(), z: trig_zero_spec() }
}

/// Rounding an exact multiple recovers the factor.
proof fn lemma_rdiv_exact(a: int, d: int)
    requires
        0 < d,
    ensures
        rdiv_spec(a * d, d) == a,
{
    if a >= 0 {
        assert(a * d >= 0) by (nonlinear_arith)
            requires
                a >= 0,
                d > 0,
        ;
        assert((a * d + d / 2) / d == a) by (nonlinear_arith)
            requires
                a >= 0,
                0 < d,
        ;
    } else {
        assert(a * d < 0) by (nonlinear_arith)
            requires
                a < 0,
                d > 0,
        ;
        assert(-(a * d) == (-a) * d) by (nonlinear_arith);
        assert(((-a) * d + d / 2) / d == -a) by (nonlinear_arith)
            requires
                -a >= 0,
                0 < d,
        ;
    }
}

/// At angle zero the single-axis target map is the identity.
pub proof fn lemma_target2_zero_identity(w: int, h: int, x: int, y: int)
    ensures
        target2_spec(trig_zero_spec(), w, h, x, y) == (x, y),
{
    lemma_rdiv_exact(x, 65536);
    lemma_rdiv_exact(y, 65536);
}

/// At all angles zero the three-axis target map is the identity.
pub proof fn lemma_target3_zero_identity(w: int, h: int, x: int, y: int)
    ensures
        target3_spec(trig3_zero_spec(), w, h, x, y) == (x, y),
{
    let t = trig3_zero_spec();
    let dx = x - w / 2;
    let dy = y - h / 2;
    let nx = dx * t.y.cos - dy * t.y.sin;
    let ny = dx * t.x.sin * t.y.sin + dy * t.x.cos * 65536;
    let nz = dx * t.x.cos * t.y.sin - dy * t.x.sin * 65536;
    assert(t.x.sin == 0 && t.x.cos == 65536 && t.y.sin == 0 && t.y.cos == 65536 && t.z.sin == 0
        && t.z.cos == 65536);
    assert(nx == dx * 65536 && ny == dy * (65536int * 65536) && nz == 0
        && nx * t.z.cos * 65536 - nz * t.z.sin == dx * (65536int * 65536 * 65536))
        by (nonlinear_arith)
        requires
            nx == dx * t.y.cos - dy * t.y.sin,
            ny == dx * t.x.sin * t.y.sin + dy * t.x.cos * 65536,
            nz == dx * t.x.cos * t.y.sin - dy * t.x.sin * 65536,
            t.x.sin == 0,
            t.x.cos == 65536,
            t.y.sin == 0,
            t.y.cos == 65536,
            t.z.sin == 0,
            t.z.cos == 65536,
    ;
    lemma_rdiv_exact(x, 65536int * 65536 * 65536);
    lemma_rdiv_exact(y, 65536int * 65536);
}

/// One forward-mapping write: place character `c` at target `p` if that
/// landed on the grid, else discard it (the cell rotated off-grid).
pub open spec fn place_cell(cells: Seq<char>, c: char, p: (int, int), w: int, h: int) -> Seq<char> {
    if 0 <= p.0 < w && 0 <= p.1 < h {
        cells.update(p.1 * w + p.0, c)
    } else {
        cells
    }
}

/// The destination cells after the first `k` source cells, in row-major scan
/// order, have been forward-mapped through the three-axis rotation into a
/// grid that starts all blank. Later writes overwrite earlier ones.
pub open spec fn rotate3_prefix(src: Seq<char>, t: Trig3, w: int, h: int, k: nat) -> Seq<char>
    decreases k,
{
    if k == 0 {
        blank_cells((w * h) as nat)
    } else {
        let j = (k - 1) as int;
        place_cell(
            rotate3_prefix(src, t, w, h, (k - 1) as nat),
            src[j],
            target3_spec(t, w, h, j % w, j / w),
            w,
            h,
        )
    }
}

/// The full three-axis rotation of a `w` by `h` source grid.
pub open spec fn rotate3_spec(src: Seq<char>, t: Trig3, w: int, h: int) -> Seq<char> {
    rotate3_prefix(src, t, w, h, (w * h) as nat)
}

/// As `rotate3_prefix`, for the single-axis rotation.
pub open spec fn rotate2_prefix(src: Seq<char>, t: Trig, w: int, h: int, k: nat) -> Seq<char>
    decreases k,
{
    if k == 0 {
        blank_cells((w * h) as nat)
    } else {
        let j = (k - 1) as int;
        place_cell(
            rotate2_prefix(src, t, w, h, (k - 1) as nat),
            src[j],
            target2_spec(t, w, h, j % w, j / w),
            w,
            h,
        )
    }
}

/// The full single-axis rotation of a `w` by `h` source grid.
pub open spec fn rotate2_spec(src: Seq<char>, t: Trig, w: int, h: int) -> Seq<char> {
    rotate2_prefix(src, t, w, h, (w * h) as nat)
}

/// A scaled trig pair that represents a unit vector up to the fixed-point
/// tolerance: what rounding the real sine and cosine of one angle to the
/// `TRIG_ONE` scale always yields.
pub open spec fn trig_unit(t: Trig) -> bool {
    &&& trig_in_range(t)
    &&& t.sin * t.sin + t.cos * t.cos - 65536int * 65536 <= 131072
    &&& 65536int * 65536 - (t.sin * t.sin + t.cos * t.cos) <= 131072
}

/// Round-half-away-from-zero division lands within half a divisor of the
/// exact quotient.
proof fn lemma_rdiv_err(n: int, d: int)
    requires
        0 < d,
        d % 2 == 0,
    ensures
        rdiv_spec(n, d) * d - n <= d / 2,
        n - rdiv_spec(n, d) * d <= d / 2,
{
    if n >= 0 {
        let q = (n + d / 2) / d;
        vstd::arithmetic::div_mod::lemma_fundamental_div_mod(n + d / 2, d);
        vstd::arithmetic::div_mod::lemma_mod_bound(n + d / 2, d);
        assert(q * d == n + d / 2 - (n + d / 2) % d) by (nonlinear_arith)
            requires
                n + d / 2 == d * q + (n + d / 2) % d,
        ;
    } else {
        let m = (-n + d / 2) / d;
        vstd::arithmetic::div_mod::lemma_fundamental_div_mod(-n + d / 2, d);
        vstd::arithmetic::div_mod::lemma_mod_bound(-n + d / 2, d);
        assert((-m) * d == n - d / 2 + (-n + d / 2) % d) by (nonlinear_arith)
            requires
                -n + d / 2 == d * m + (-n + d / 2) % d,
        ;
    }
}

/// Rotating by an angle and then by its negation returns every source cell
/// to within one grid unit of its original position: the forward map of `t`,
/// followed by the forward map of the negated angle (`rt`: same cosine,
/// negated sine), each with its own rounding, moves neither coordinate by
/// more than one.
pub proof fn lemma_rotate2_round_trip(t: Trig, rt: Trig, w: int, h: int, x: int, y: int)
    requires
        trig_unit(t),
        rt.cos == t.cos,
        rt.sin == -t.sin,
        1 <= w <= 1024,
        1 <= h <= 1024,
        0 <= x < w,
        0 <= y < h,
    ensures
        ({
            let p = target2_spec(t, w, h, x, y);
            let q = target2_spec(rt, w, h, p.0, p.1);
            -1 <= q.0 - x <= 1 && -1 <= q.1 - y <= 1
        }),
{
    let s = t.sin;
    let c = t.cos;
    let cx = w / 2;
    let cy = h / 2;
    let dx = x - cx;
    let dy = y - cy;
    let u = dx * c - dy * s;
    let v = dx * s + dy * c;
    let fxd = rdiv_spec(u + cx * 65536, 65536int) - cx;
    let fyd = rdiv_spec(v + cy * 65536, 65536int) - cy;
    lemma_rdiv_err(u + cx * 65536, 65536int);
    lemma_rdiv_err(v + cy * 65536, 65536int);
    let r1 = fxd * 65536 - u;
    let r2 = fyd * 65536 - v;
    assert(-32768 <= r1 <= 32768 && -32768 <= r2 <= 32768);
    let u2 = fxd * c + fyd * s;
    let v2 = fxd * (-s) + fyd * c;
    let gxd = rdiv_spec(u2 + cx * 65536, 65536int) - cx;
    let gyd = rdiv_spec(v2 + cy * 65536, 65536int) - cy;
    lemma_rdiv_err(u2 + cx * 65536, 65536int);
    lemma_rdiv_err(v2 + cy * 65536, 65536int);
    let r3 = gxd * 65536 - u2;
    let r4 = gyd * 65536 - v2;
    assert(-32768 <= r3 <= 32768 && -32768 <= r4 <= 32768);
    let excess = s * s + c * c - 65536int * 65536;
    assert(fxd * rt.cos - fyd * rt.sin == u2 && fxd * rt.sin + fyd * rt.cos == v2)
        by (nonlinear_arith)
        requires
            rt.cos == c,
            rt.sin == -s,
            u2 == fxd * c + fyd * s,
            v2 == fxd * (-s) + fyd * c,
    ;
    assert(u * c + v * s == dx * (s * s + c * c) && v * c - u * s == dy * (s * s + c * c))
        by (nonlinear_arith)
        requires
            u == dx * c - dy * s,
            v == dx * s + dy * c,
    ;
    assert(65536int * u2 == u * c + v * s + r1 * c + r2 * s
        && 65536int * v2 == v * c - u * s + r2 * c - r1 * s) by (nonlinear_arith)
        requires
            fxd * 65536 == u + r1,
            fyd * 65536 == v + r2,
            u2 == fxd * c + fyd * s,
            v2 == fxd * (-s) + fyd * c,
    ;
    assert(dx * (s * s + c * c) == dx * (65536int * 65536) + dx * excess
        && dy * (s * s + c * c) == dy * (65536int * 65536) + dy * excess) by (nonlinear_arith)
        requires
            excess == s * s + c * c - 65536int * 65536,
    ;
    assert(65536int * u2 == dx * (65536int * 65536) + dx * excess + r1 * c + r2 * s);
    assert(65536int * v2 == dy * (65536int * 65536) + dy * excess + r2 * c - r1 * s);
    assert(-134217728 <= dx * excess <= 134217728 && -134217728 <= dy * excess <= 134217728
        && -2147483648 <= r1 * c <= 2147483648 && -2147483648 <= r2 * s <= 2147483648
        && -2147483648 <= r2 * c <= 2147483648 && -2147483648 <= r1 * s <= 2147483648)
        by (nonlinear_arith)
        requires
            -1024 <= dx <= 1024,
            -1024 <= dy <= 1024,
            -131072 <= excess <= 131072,
            -32768 <= r1 <= 32768,
            -32768 <= r2 <= 32768,
            -65536 <= s <= 65536,
            -65536 <= c <= 65536,
    ;
    assert((65536int * 65536) * (gxd - dx) == dx * excess + r1 * c + r2 * s + 65536 * r3
        && (65536int * 65536) * (gyd - dy) == dy * excess + r2 * c - r1 * s + 65536 * r4)
        by (nonlinear_arith)
        requires
            gxd * 65536 == u2 + r3,
            gyd * 65536 == v2 + r4,
            65536int * u2 == dx * (65536int * 65536) + dx * excess + r1 * c + r2 * s,
            65536int * v2 == dy * (65536int * 65536) + dy * excess + r2 * c - r1 * s,
    ;
    assert(-2 < gxd - dx < 2 && -2 < gyd - dy < 2) by (nonlinear_arith)
        requires
            -8589934592 < (65536int * 65536) * (gxd - dx) < 8589934592,
            -8589934592 < (65536int * 65536) * (gyd - dy) < 8589934592,
    ;
}

/// A row-major index splits into a row below `h` and a column below `w`.
proof fn lemma_index_split(j: int, w: int, h: int)
    requires
        1 <= w,
        1 <= h,
        0 <= j < w * h,
    ensures
        0 <= j % w < w,
        0 <= j / w < h,
        (j / w) * w + j % w == j,
{
    vstd::arithmetic::div_mod::lemma_fundamental_div_mod(j, w);
    vstd::arithmetic::div_mod::lemma_mod_bound(j, w);
    assert(0 <= j / w < h && (j / w) * w + j % w == j) by (nonlinear_arith)
        requires
            j == w * (j / w) + j % w,
            0 <= j % w < w,
            0 <= j < w * h,
            1 <= w,
            1 <= h,
    ;
}

/// After the first `k` cells of the zero-angle three-axis rotation, the
/// first `k` destination cells match the source and the rest are blank.
proof fn lemma_rotate3_zero_prefix(src: Seq<char>, w: int, h: int, k: nat)
    requires
        1 <= w,
        1 <= h,
        src.len() == w * h,
        k <= w * h,
    ensures
        rotate3_prefix(src, trig3_zero_spec(), w, h, k).len() == w * h,
        forall|j: int| 0 <= j < k ==> rotate3_prefix(src, trig3_zero_spec(), w, h, k)[j] == src[j],
        forall|j: int| k <= j < w * h ==> rotate3_prefix(src, trig3_zero_spec(), w, h, k)[j] == ' ',
    decreases k,
{
    if k > 0 {
        lemma_rotate3_zero_prefix(src, w, h, (k - 1) as nat);
        let j = (k - 1) as int;
        lemma_index_split(j, w, h);
        lemma_target3_zero_identity(w, h, j % w, j / w);
    }
}

/// At all angles zero the three-axis rotation reproduces the source grid
/// exactly: every source cell lands on its own coordinates, leaving no
/// holes and losing no cell off-grid.
pub proof fn lemma_rotate3_zero_identity(src: Seq<char>, w: int, h: int)
    requires
        1 <= w,
        1 <= h,
        src.len() == w * h,
    ensures
        rotate3_spec(src, trig3_zero_spec(), w, h) == src,
{
    lemma_rotate3_zero_prefix(src, w, h, (w * h) as nat);
    assert(rotate3_spec(src, trig3_zero_spec(), w, h) =~= src);
}

/// After the first `k` cells of the zero-angle single-axis rotation, the
/// first `k` destination cells match the source and the rest are blank.
proof fn lemma_rotate2_zero_prefix(src: Seq<char>, w: int, h: int, k: nat)
    requires
        1 <= w,
        1 <= h,
        src.len() == w * h,
        k <= w * h,
    ensures
        rotate2_prefix(src, trig_zero_spec(), w, h, k).len() == w * h,
        forall|j: int| 0 <= j < k ==> rotate2_prefix(src, trig_zero_spec(), w, h, k)[j] == src[j],
        forall|j: int| k <= j < w * h ==> rotate2_prefix(src, trig_zero_spec(), w, h, k)[j] == ' ',
    decreases k,
{
    if k > 0 {
        lemma_rotate2_zero_prefix(src, w, h, (k - 1) as nat);
        let j = (k - 1) as int;
        lemma_index_split(j, w, h);
        lemma_target2_zero_identity(w, h, j % w, j / w);
    }
}

/// At angle zero the single-axis rotation reproduces the source grid
/// exactly.
pub proof fn lemma_rotate2_zero_identity(src: Seq<char>, w: int, h: int)
    requires
        1 <= w,
        1 <= h,
        src.len() == w * h,
    ensures
        rotate2_spec(src, trig_zero_spec(), w, h) == src,
{
    lemma_rotate2_zero_prefix(src, w, h, (w * h) as nat);
    assert(rotate2_spec(src, trig_zero_spec(), w, h) =~= src);
}

/// After the first `k` source cells, every destination cell is either still
/// blank or holds the character of an already-scanned source cell whose
/// target is exactly that cell.
proof fn lemma_rotate3_sources_prefix(src: Seq<char>, t: Trig3, w: int, h: int, k: nat)
    requires
        1 <= w,
        1 <= h,
        src.len() == w * h,
        k <= w * h,
    ensures
        rotate3_prefix(src, t, w, h, k).len() == w * h,
        forall|j: int|
            0 <= j < w * h ==> #[trigger] rotate3_prefix(src, t, w, h, k)[j] == ' '
                || exists|i: int|
                0 <= i < k && src[i] == rotate3_prefix(src, t, w, h, k)[j]
                    && #[trigger] target3_spec(t, w, h, i % w, i / w) == (j % w, j / w),
    decreases k,
{
    if k > 0 {
        lemma_rotate3_sources_prefix(src, t, w, h, (k - 1) as nat);
        let i = (k - 1) as int;
        lemma_index_split(i, w, h);
        let p = target3_spec(t, w, h, i % w, i / w);
        if 0 <= p.0 < w && 0 <= p.1 < h {
            let j = p.1 * w + p.0;
            crate::grid::lemma_row_major_index(p.0, p.1, w, h);
            vstd::arithmetic::div_mod::lemma_fundamental_div_mod_converse(j, w, p.1, p.0);
            assert(target3_spec(t, w, h, i % w, i / w) == (j % w, j / w));
            assert(rotate3_prefix(src, t, w, h, k)[j] == src[i]);
        }
    }
}

/// Every cell of the rotated grid is either the blank marker (a hole: no
/// source cell landed there, or every one that did was rotated off-grid) or
/// the character of a source cell whose target is exactly that cell.
pub proof fn lemma_rotate3_cells_have_sources(src: Seq<char>, t: Trig3, w: int, h: int)
    requires
        1 <= w,
        1 <= h,
        src.len() == w * h,
    ensures
        forall|j: int|
            0 <= j < w * h ==> #[trigger] rotate3_spec(src, t, w, h)[j] == ' '
                || exists|i: int|
                0 <= i < w * h && src[i] == rotate3_spec(src, t, w, h)[j]
                    && #[trigger] target3_spec(t, w, h, i % w, i / w) == (j % w, j / w),
{
    lemma_rotate3_sources_prefix(src, t, w, h, (w * h) as nat);
}

/// Up to `k` scanned cells, a destination cell that no source cell targets
/// is still blank.
proof fn lemma_rotate3_untargeted_prefix(src: Seq<char>, t: Trig3, w: int, h: int, j: int, k: nat)
    requires
        1 <= w,
        1 <= h,
        src.len() == w * h,
        k <= w * h,
        0 <= j < w * h,
        forall|i: int|
            0 <= i < w * h ==> #[trigger] target3_spec(t, w, h, i % w, i / w) != (j % w, j / w),
    ensures
        rotate3_prefix(src, t, w, h, k)[j] == ' ',
    decreases k,
{
    lemma_rotate3_sources_prefix(src, t, w, h, k);
    if k > 0 {
        lemma_rotate3_sources_prefix(src, t, w, h, (k - 1) as nat);
        lemma_rotate3_untargeted_prefix(src, t, w, h, j, (k - 1) as nat);
        let i = (k - 1) as int;
        lemma_index_split(i, w, h);
        lemma_index_split(j, w, h);
        let p = target3_spec(t, w, h, i % w, i / w);
        if 0 <= p.0 < w && 0 <= p.1 < h {
            vstd::arithmetic::div_mod::lemma_fundamental_div_mod_converse(
                p.1 * w + p.0,
                w,
                p.1,
                p.0,
            );
            assert(p.1 * w + p.0 != j);
        }
    }
}

/// A destination cell that no source cell targets stays the blank marker: a
/// hole of the forward mapping.
pub proof fn lemma_rotate3_untargeted_is_blank(src: Seq<char>, t: Trig3, w: int, h: int, j: int)
    requires
        1 <= w,
        1 <= h,
        src.len() == w * h,
        0 <= j < w * h,
        forall|i: int|
            0 <= i < w * h ==> #[trigger] target3_spec(t, w, h, i % w, i / w) != (j % w, j / w),
    ensures
        rotate3_spec(src, t, w, h)[j] == ' ',
{
    lemma_rotate3_untargeted_prefix(src, t, w, h, j, (w * h) as nat);
}

/// Up to `k` scanned cells, the cell targeted by source cell `i` holds
/// `src[i]` as long as no later scanned cell targeted it too.
proof fn lemma_rotate3_last_writer_prefix(src: Seq<char>, t: Trig3, w: int, h: int, i: int, k: nat)
    requires
        1 <= w,
        1 <= h,
        src.len() == w * h,
        0 <= i < k <= w * h,
        ({
            let p = target3_spec(t, w, h, i % w, i / w);
            &&& 0 <= p.0 < w
            &&& 0 <= p.1 < h
            &&& forall|i2: int|
                i < i2 < k ==> #[trigger] target3_spec(t, w, h, i2 % w, i2 / w) != p
        }),
    ensures
        ({
            let p = target3_spec(t, w, h, i % w, i / w);
            rotate3_prefix(src, t, w, h, k)[p.1 * w + p.0] == src[i]
        }),
    decreases k,
{
    let p = target3_spec(t, w, h, i % w, i / w);
    lemma_index_split(i, w, h);
    crate::grid::lemma_row_major_index(p.0, p.1, w, h);
    lemma_rotate3_sources_prefix(src, t, w, h, k);
    lemma_rotate3_sources_prefix(src, t, w, h, (k - 1) as nat);
    if k == i + 1 {
        let prev = rotate3_prefix(src, t, w, h, (k - 1) as nat);
        assert((k - 1) as int == i);
        assert(rotate3_prefix(src, t, w, h, k) == place_cell(prev, src[i], p, w, h));
        assert(place_cell(prev, src[i], p, w, h) == prev.update(p.1 * w + p.0, src[i]));
        assert(rotate3_prefix(src, t, w, h, k)[p.1 * w + p.0] == src[i]);
    } else {
        lemma_rotate3_last_writer_prefix(src, t, w, h, i, (k - 1) as nat);
        let i2 = (k - 1) as int;
        lemma_index_split(i2, w, h);
        let p2 = target3_spec(t, w, h, i2 % w, i2 / w);
        let prev = rotate3_prefix(src, t, w, h, (k - 1) as nat);
        assert(rotate3_prefix(src, t, w, h, k) == place_cell(prev, src[i2], p2, w, h));
        if 0 <= p2.0 < w && 0 <= p2.1 < h {
            crate::grid::lemma_row_major_index(p2.0, p2.1, w, h);
            assert(place_cell(prev, src[i2], p2, w, h) == prev.update(p2.1 * w + p2.0, src[i2]));
            vstd::arithmetic::div_mod::lemma_fundamental_div_mod_converse(
                p2.1 * w + p2.0,
                w,
                p2.1,
                p2.0,
            );
            vstd::arithmetic::div_mod::lemma_fundamental_div_mod_converse(
                p.1 * w + p.0,
                w,
                p.1,
                p.0,
            );
            assert(p2.1 * w + p2.0 != p.1 * w + p.0);
            assert(prev.update(p2.1 * w + p2.0, src[i2])[p.1 * w + p.0] == prev[p.1 * w + p.0]);
        }
        assert(rotate3_prefix(src, t, w, h, k)[p.1 * w + p.0] == src[i]);
    }
}

/// Last writer wins: if source cell `i` targets an on-grid cell and no
/// source cell after it in row-major scan order targets the same cell, the
/// rotated grid holds `src[i]` there.
pub proof fn lemma_rotate3_last_writer_wins(src: Seq<char>, t: Trig3, w: int, h: int, i: int)
    requires
        1 <= w,
        1 <= h,
        src.len() == w * h,
        0 <= i < w * h,
        ({
            let p = target3_spec(t, w, h, i % w, i / w);
            &&& 0 <= p.0 < w
            &&& 0 <= p.1 < h
            &&& forall|i2: int|
                i < i2 < w * h ==> #[trigger] target3_spec(t, w, h, i2 % w, i2 / w) != p
        }),
    ensures
        ({
            let p = target3_spec(t, w, h, i % w, i / w);
            rotate3_spec(src, t, w, h)[p.1 * w + p.0] == src[i]
        }),
{
    lemma_rotate3_last_writer_prefix(src, t, w, h, i, (w * h) as nat);
}

/// The grid center is a fixed point of the three-axis target map at every
/// angle: its centered coordinates are zero, so every rotation term
/// vanishes and the rounding is exact.
pub proof fn lemma_target3_fixes_center(t: Trig3, w: int, h: int)
    ensures
        target3_spec(t, w, h, w / 2, h / 2) == (w / 2, h / 2),
{
    let dx = w / 2 - w / 2;
    let dy = h / 2 - h / 2;
    let nx = dx * t.y.cos - dy * t.y.sin;
    let ny = dx * t.x.sin * t.y.sin + dy * t.x.cos * 65536;
    let nz = dx * t.x.cos * t.y.sin - dy * t.x.sin * 65536;
    assert(nx == 0 && ny == 0 && nz == 0 && nx * t.z.cos * 65536 - nz * t.z.sin == 0)
        by (nonlinear_arith)
        requires
            dx == 0,
            dy == 0,
            nx == dx * t.y.cos - dy * t.y.sin,
            ny == dx * t.x.sin * t.y.sin + dy * t.x.cos * 65536,
            nz == dx * t.x.cos * t.y.sin - dy * t.x.sin * 65536,
    ;
    lemma_rdiv_exact(w / 2, 65536int * 65536 * 65536);
    lemma_rdiv_exact(h / 2, 65536int * 65536);
}

/// Up to `k` scanned cells, a destination cell that some already-scanned
/// source cell targets holds the character of one of the source cells.
proof fn lemma_rotate3_covered_prefix(src: Seq<char>, t: Trig3, w: int, h: int, i: int, k: nat)
    requires
        1 <= w,
        1 <= h,
        src.len() == w * h,
        0 <= i < k <= w * h,
        ({
            let p = target3_spec(t, w, h, i % w, i / w);
            0 <= p.0 < w && 0 <= p.1 < h
        }),
    ensures
        ({
            let p = target3_spec(t, w, h, i % w, i / w);
            exists|i2: int|
                0 <= i2 < w * h && rotate3_prefix(src, t, w, h, k)[p.1 * w + p.0] == src[i2]
        }),
    decreases k,
{
    let p = target3_spec(t, w, h, i % w, i / w);
    lemma_index_split(i, w, h);
    crate::grid::lemma_row_major_index(p.0, p.1, w, h);
    lemma_rotate3_sources_prefix(src, t, w, h, k);
    lemma_rotate3_sources_prefix(src, t, w, h, (k - 1) as nat);
    let i2 = (k - 1) as int;
    lemma_index_split(i2, w, h);
    let p2 = target3_spec(t, w, h, i2 % w, i2 / w);
    let prev = rotate3_prefix(src, t, w, h, (k - 1) as nat);
    let idx = p.1 * w + p.0;
    assert(rotate3_prefix(src, t, w, h, k) == place_cell(prev, src[i2], p2, w, h));
    if 0 <= p2.0 < w && 0 <= p2.1 < h && p2.1 * w + p2.0 == idx {
        crate::grid::lemma_row_major_index(p2.0, p2.1, w, h);
        assert(place_cell(prev, src[i2], p2, w, h) == prev.update(p2.1 * w + p2.0, src[i2]));
        assert(rotate3_prefix(src, t, w, h, k)[idx] == src[i2]);
    } else {
        if 0 <= p2.0 < w && 0 <= p2.1 < h {
            crate::grid::lemma_row_major_index(p2.0, p2.1, w, h);
            assert(place_cell(prev, src[i2], p2, w, h) == prev.update(p2.1 * w + p2.0, src[i2]));
            assert(prev.update(p2.1 * w + p2.0, src[i2])[idx] == prev[idx]);
        }
        // the step that scanned cell i itself wrote this cell, so the
        // unchanged case can only arise for a later step
        assert(k != i + 1);
        lemma_rotate3_covered_prefix(src, t, w, h, i, (k - 1) as nat);
        let i3 = choose|i3: int| 0 <= i3 < w * h && prev[idx] == src[i3];
        assert(rotate3_prefix(src, t, w, h, k)[idx] == src[i3]);
    }
}

/// The center cell of a grid with no blank characters is still not blank
/// after a rotation by any angles: the center is its own target, so its
/// character (or a later writer's, equally non-blank) always lands there.
/// No wider interior claim holds of the forward mapping: away from the
/// center, large angles can leave holes, since the combined transform can
/// send several columns of source cells to one destination column.
pub proof fn lemma_rotate3_center_stays_dense(src: Seq<char>, t: Trig3, w: int, h: int)
    requires
        1 <= w,
        1 <= h,
        src.len() == w * h,
        forall|i: int| 0 <= i < w * h ==> src[i] != ' ',
    ensures
        rotate3_spec(src, t, w, h)[(h / 2) * w + w / 2] != ' ',
{
    lemma_target3_fixes_center(t, w, h);
    crate::grid::lemma_row_major_index(w / 2, h / 2, w, h);
    let i = (h / 2) * w + w / 2;
    vstd::arithmetic::div_mod::lemma_fundamental_div_mod_converse(i, w, h / 2, w / 2);
    lemma_rotate3_covered_prefix(src, t, w, h, i, (w * h) as nat);
}

/// Rotate a grid by the three axis angles whose scaled trig pairs are given:
/// allocate a fresh all-blank destination of the same dimensions, then map
/// every source cell forward, last writer winning in row-major scan order.
/// The source grid is never mutated.
pub fn rotate_grid3(src: &CharGrid, t: &Trig3) -> (dst: CharGrid)
    requires
        src.wf(),
        trig3_in_range(*t),
    ensures
        dst.wf(),
        dst.width == src.width,
        dst.height == src.height,
        dst.cells@ == rotate3_spec(src.cells@, *t, src.width as int, src.height as int),
{
    let w = src.width;
    let h = src.height;
    let mut dst = CharGrid::blank(w, h);
    let mut y: usize = 0;
    while y < h
        invariant
            src.wf(),
            trig3_in_range(*t),
            w == src.width,
            h == src.height,
            y <= h,
            dst.wf(),
            dst.width == w,
            dst.height == h,
            dst.cells@ == rotate3_prefix(src.cells@, *t, w as int, h as int, (y * w) as nat),
        decreases h - y,
    {
        let mut x: usize = 0;
        while x < w
            invariant
                src.wf(),
                trig3_in_range(*t),
                w == src.width,
                h == src.height,
                y < h,
                x <= w,
                dst.wf(),
                dst.width == w,
                dst.height == h,
                dst.cells@ == rotate3_prefix(src.cells@, *t, w as int, h as int, (y * w + x) as nat),
            decreases w - x,
        {
            proof {
                crate::grid::lemma_row_major_index(x as int, y as int, w as int, h as int);
                crate::grid::lemma_grid_area_bound(w as int, h as int);
            }
            let k: usize = y * w + x;
            let c = src.cells[k];
            let p = target3(t, w, h, x, y);
            proof {
                vstd::arithmetic::div_mod::lemma_fundamental_div_mod_converse(
                    k as int,
                    w as int,
                    y as int,
                    x as int,
                );
            }
            if p.0 >= 0 && p.0 < w as i64 && p.1 >= 0 && p.1 < h as i64 {
                let fx = p.0 as usize;
                let fy = p.1 as usize;
                proof {
                    crate::grid::lemma_row_major_index(fx as int, fy as int, w as int, h as int);
                }
                let idx: usize = fy * w + fx;
                dst.cells[idx] = c;
            }
            x = x + 1;
            assert(dst.cells@ == rotate3_prefix(src.cells@, *t, w as int, h as int, (y * w + x) as nat));
        }
        y = y + 1;
        proof {
            assert(y * w == (y - 1) * w + w) by (nonlinear_arith);
        }
    }
    proof {
        assert((h * w) as nat == (w * h) as nat) by (nonlinear_arith);
    }
    dst
}

/// Rotate a grid by a single angle: the standard planar rotation of every
/// source cell about the grid center, forward-mapped as in `rotate_grid3`.
pub fn rotate_grid2(src: &CharGrid, t: &Trig) -> (dst: CharGrid)
    requires
        src.wf(),
        trig_in_range(*t),
    ensures
        dst.wf(),
        dst.width == src.width,
        dst.height == src.height,
        dst.cells@ == rotate2_spec(src.cells@, *t, src.width as int, src.height as int),
{
    let w = src.width;
    let h = src.height;
    let mut dst = CharGrid::blank(w, h);
    let mut y: usize = 0;
    while y < h
        invariant
            src.wf(),
            trig_in_range(*t),
            w == src.width,
            h == src.height,
            y <= h,
            dst.wf(),
            dst.width == w,
            dst.height == h,
            dst.cells@ == rotate2_prefix(src.cells@, *t, w as int, h as int, (y * w) as nat),
        decreases h - y,
    {
        let mut x: usize = 0;
        while x < w
            invariant
                src.wf(),
                trig_in_range(*t),
                w == src.width,
                h == src.height,
                y < h,
                x <= w,
                dst.wf(),
                dst.width == w,
                dst.height == h,
                dst.cells@ == rotate2_prefix(src.cells@, *t, w as int, h as int, (y * w + x) as nat),
            decreases w - x,
        {
            proof {
                crate::grid::lemma_row_major_index(x as int, y as int, w as int, h as int);
                crate::grid::lemma_grid_area_bound(w as int, h as int);
            }
            let k: usize = y * w + x;
            let c = src.cells[k];
            let p = target2(t, w, h, x, y);
            proof {
                vstd::arithmetic::div_mod::lemma_fundamental_div_mod_converse(
                    k as int,
                    w as int,
                    y as int,
                    x as int,
                );
            }
            if p.0 >= 0 && p.0 < w as i64 && p.1 >= 0 && p.1 < h as i64 {
                let fx = p.0 as usize;
                let fy = p.1 as usize;
                proof {
                    crate::grid::lemma_row_major_index(fx as int, fy as int, w as int, h as int);
                }
                let idx: usize = fy * w + fx;
                dst.cells[idx] = c;
            }
            x = x + 1;
            assert(dst.cells@ == rotate2_prefix(src.cells@, *t, w as int, h as int, (y * w + x) as nat));
        }
        y = y + 1;
        proof {
            assert(y * w == (y - 1) * w + w) by (nonlinear_arith);
        }
    }
    proof {
        assert((h * w) as nat == (w * h) as nat) by (nonlinear_arith);
    }
    dst
}

} // verus!
