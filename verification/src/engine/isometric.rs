//! Isometric projection between map (tile) coordinates and world (pixel)
//! coordinates, computed exactly over rationals.
//!
//! The projection maps tile axis `i` to `(w/2, h/4)` and tile axis `j` to
//! `(-w/2, h/4)` for a tile of `w` by `h` pixels, and shifts the result left
//! by half a tile; the inverse applies the inverse matrix without the shift.

use vstd::prelude::*;

verus! {

/// A point with rational coordinates `(x / den, y / den)`; `den` is nonzero.
#[derive(Clone, Copy, Debug)]
pub struct RatVec2 {
    pub x: i64,
    pub y: i64,
    pub den: i64,
}

/// Width and height of a tile, in pixels.
#[derive(Clone, Copy, Debug)]
pub struct TileSize {
    pub x: i64,
    pub y: i64,
}

impl View for RatVec2 {
    type V = (int, int, int);

    open spec fn view(&self) -> (int, int, int) {
        (self.x as int, self.y as int, self.den as int)
    }
}

/// Whether two rational points (numerators and denominator) are the same point.
pub open spec fn same_point(a: (int, int, int), b: (int, int, int)) -> bool {
    a.0 * b.2 == b.0 * a.2 && a.1 * b.2 == b.1 * a.2
}

/// Whether a value fits in an `i64`.
pub open spec fn fits_i64(v: int) -> bool {
    i64::MIN <= v <= i64::MAX
}

/// Map point `m` projected to world space, for tiles of `tw` by `th` pixels.
pub open spec fn iso_to_world(m: (int, int, int), tw: int, th: int) -> (int, int, int) {
    (2 * tw * (m.0 - m.1 - m.2), th * (m.0 + m.1), 4 * m.2)
}

/// World point `w` taken back to map space, for tiles of `tw` by `th` pixels.
pub open spec fn iso_to_map(w: (int, int, int), tw: int, th: int) -> (int, int, int) {
    (w.0 * th + 2 * w.1 * tw, 2 * w.1 * tw - w.0 * th, w.2 * tw * th)
}

/// Whether every component of a rational point fits in an `i64`.
pub open spec fn fits_point(p: (int, int, int)) -> bool {
    fits_i64(p.0) && fits_i64(p.1) && fits_i64(p.2)
}

/// Converts a world position to map (tile) coordinates.
pub fn world_to_map(world_pos: RatVec2, tile_size: TileSize) -> (map_pos: RatVec2)
    requires
        world_pos.den != 0,
        tile_size.x != 0,
        tile_size.y != 0,
        fits_point(iso_to_map(world_pos@, tile_size.x as int, tile_size.y as int)),
    ensures
        map_pos@ == iso_to_map(world_pos@, tile_size.x as int, tile_size.y as int),
        map_pos.den != 0,
{
    let wx = world_pos.x as i128;
    let wy = world_pos.y as i128;
    let e = world_pos.den as i128;
    let tw = tile_size.x as i128;
    let th = tile_size.y as i128;
    proof {
        let (a, b, c) = (wx as int, wy as int, tw as int);
        assert(-0x8000_0000_0000_0000 * 0x8000_0000_0000_0000 <= a * (th as int) <= 0x8000_0000_0000_0000 * 0x8000_0000_0000_0000)
            by (nonlinear_arith) requires -0x8000_0000_0000_0000 <= a < 0x8000_0000_0000_0000,
                -0x8000_0000_0000_0000 <= th < 0x8000_0000_0000_0000;
        assert(-0x8000_0000_0000_0000 * 0x8000_0000_0000_0000 <= b * c <= 0x8000_0000_0000_0000 * 0x8000_0000_0000_0000)
            by (nonlinear_arith) requires -0x8000_0000_0000_0000 <= b < 0x8000_0000_0000_0000,
                -0x8000_0000_0000_0000 <= c < 0x8000_0000_0000_0000;
        assert(-0x8000_0000_0000_0000 * 0x8000_0000_0000_0000 <= (e as int) * c <= 0x8000_0000_0000_0000 * 0x8000_0000_0000_0000)
            by (nonlinear_arith) requires -0x8000_0000_0000_0000 <= e < 0x8000_0000_0000_0000,
                -0x8000_0000_0000_0000 <= c < 0x8000_0000_0000_0000;
        let d = (e as int) * c * (th as int);
        assert(d == (e as int) * c * (th as int));
        assert(((e as int) * c) * (th as int) == d);
        assert(-(0x8000_0000_0000_0000int) <= (e as int) * c <= 0x8000_0000_0000_0000) by (nonlinear_arith)
            requires fits_i64(d), d == ((e as int) * c) * (th as int), th != 0;
    }
    let x = wx * th + 2 * wy * tw;
    let y = 2 * wy * tw - wx * th;
    let den = e * tw * th;
    proof {
        assert((e as int) * (tw as int) * (th as int) != 0) by (nonlinear_arith)
            requires e != 0, tw != 0, th != 0;
    }
    RatVec2 { x: x as i64, y: y as i64, den: den as i64 }
}

/// Converts map (tile) coordinates to a world position.
pub fn map_to_world(map_pos: RatVec2, tile_size: TileSize) -> (world_pos: RatVec2)
    requires
        map_pos.den != 0,
        fits_point(iso_to_world(map_pos@, tile_size.x as int, tile_size.y as int)),
    ensures
        world_pos@ == iso_to_world(map_pos@, tile_size.x as int, tile_size.y as int),
        world_pos.den != 0,
{
    let mx = map_pos.x as i128;
    let my = map_pos.y as i128;
    let d = map_pos.den as i128;
    let tw = tile_size.x as i128;
    let th = tile_size.y as i128;
    let x = (2 * tw) * (mx - my - d);
    let y = th * (mx + my);
    RatVec2 { x: x as i64, y: y as i64, den: (4 * d) as i64 }
}

/// Projecting a map point to world space and back lands half a tile off:
/// `world_to_map(map_to_world(m)) == m + (-1/2, +1/2)`.
pub proof fn law_map_world_map(m: (int, int, int), tw: int, th: int)
    ensures
        same_point(
            iso_to_map(iso_to_world(m, tw, th), tw, th),
            (2 * m.0 - m.2, 2 * m.1 + m.2, 2 * m.2),
        ),
{
    let (a, b, d) = m;
    let w = iso_to_world(m, tw, th);
    let r = iso_to_map(w, tw, th);
    assert(r.0 == 2 * tw * th * (2 * a - d)) by (nonlinear_arith)
        requires r.0 == w.0 * th + 2 * w.1 * tw, w.0 == 2 * tw * (a - b - d), w.1 == th * (a + b);
    assert(r.1 == 2 * tw * th * (2 * b + d)) by (nonlinear_arith)
        requires r.1 == 2 * w.1 * tw - w.0 * th, w.0 == 2 * tw * (a - b - d), w.1 == th * (a + b);
    assert(r.2 == 4 * d * tw * th) by (nonlinear_arith)
        requires r.2 == w.2 * tw * th, w.2 == 4 * d;
    assert(r.0 * (2 * d) == (2 * a - d) * r.2) by (nonlinear_arith)
        requires r.0 == 2 * tw * th * (2 * a - d), r.2 == 4 * d * tw * th;
    assert(r.1 * (2 * d) == (2 * b + d) * r.2) by (nonlinear_arith)
        requires r.1 == 2 * tw * th * (2 * b + d), r.2 == 4 * d * tw * th;
}

/// Taking a world point to map space and back lands half a tile to the left:
/// `map_to_world(world_to_map(w)) == w + (-tw/2, 0)`.
pub proof fn law_world_map_world(w: (int, int, int), tw: int, th: int)
    ensures
        same_point(
            iso_to_world(iso_to_map(w, tw, th), tw, th),
            (2 * w.0 - w.2 * tw, 2 * w.1, 2 * w.2),
        ),
{
    let (p, q, e) = w;
    let m = iso_to_map(w, tw, th);
    let r = iso_to_world(m, tw, th);
    assert(r.0 == 2 * tw * th * (2 * p - e * tw)) by (nonlinear_arith)
        requires r.0 == 2 * tw * (m.0 - m.1 - m.2), m.0 == p * th + 2 * q * tw,
            m.1 == 2 * q * tw - p * th, m.2 == e * tw * th;
    assert(r.1 == 4 * tw * th * q) by (nonlinear_arith)
        requires r.1 == th * (m.0 + m.1), m.0 == p * th + 2 * q * tw, m.1 == 2 * q * tw - p * th;
    assert(r.2 == 4 * e * tw * th) by (nonlinear_arith)
        requires r.2 == 4 * m.2, m.2 == e * tw * th;
    assert(r.0 * (2 * e) == (2 * p - e * tw) * r.2) by (nonlinear_arith)
        requires r.0 == 2 * tw * th * (2 * p - e * tw), r.2 == 4 * e * tw * th;
    assert(r.1 * (2 * e) == (2 * q) * r.2) by (nonlinear_arith)
        requires r.1 == 4 * tw * th * q, r.2 == 4 * e * tw * th;
}


/// Sum of two rational points.
pub open spec fn rat_add(a: (int, int, int), b: (int, int, int)) -> (int, int, int) {
    (a.0 * b.2 + b.0 * a.2, a.1 * b.2 + b.1 * a.2, a.2 * b.2)
}

/// A rational point scaled by the fraction `kn / kd`.
pub open spec fn rat_scale(a: (int, int, int), kn: int, kd: int) -> (int, int, int) {
    (a.0 * kn, a.1 * kn, a.2 * kd)
}

/// Taking world points to map space is linear: sums go to sums, scaled
/// points to scaled points, and the origin to the origin.
pub proof fn law_world_to_map_linear(a: (int, int, int), b: (int, int, int), kn: int, kd: int, tw: int, th: int)
    ensures
        same_point(iso_to_map(rat_add(a, b), tw, th), rat_add(iso_to_map(a, tw, th), iso_to_map(b, tw, th))),
        same_point(iso_to_map(rat_scale(a, kn, kd), tw, th), rat_scale(iso_to_map(a, tw, th), kn, kd)),
        iso_to_map((0, 0, a.2), tw, th).0 == 0,
        iso_to_map((0, 0, a.2), tw, th).1 == 0,
{
    let (a0, a1, a2) = a;
    let (b0, b1, b2) = b;
    let c = tw * th;
    let s = rat_add(a, b);
    let l = iso_to_map(s, tw, th);
    let ma = iso_to_map(a, tw, th);
    let mb = iso_to_map(b, tw, th);
    let r = rat_add(ma, mb);
    let (p0, p1, q0, q1) = (a0 * th, 2 * a1 * tw, b0 * th, 2 * b1 * tw);
    assert(ma.0 == p0 + p1 && ma.1 == p1 - p0 && mb.0 == q0 + q1 && mb.1 == q1 - q0);
    assert(s.0 * th == b2 * p0 + a2 * q0) by (nonlinear_arith)
        requires s.0 == a0 * b2 + b0 * a2, p0 == a0 * th, q0 == b0 * th;
    assert(2 * s.1 * tw == b2 * p1 + a2 * q1) by (nonlinear_arith)
        requires s.1 == a1 * b2 + b1 * a2, p1 == 2 * a1 * tw, q1 == 2 * b1 * tw;
    assert(b2 * (p0 + p1) == b2 * p0 + b2 * p1) by (nonlinear_arith);
    assert(a2 * (q0 + q1) == a2 * q0 + a2 * q1) by (nonlinear_arith);
    assert(b2 * (p1 - p0) == b2 * p1 - b2 * p0) by (nonlinear_arith);
    assert(a2 * (q1 - q0) == a2 * q1 - a2 * q0) by (nonlinear_arith);
    assert(l.0 == b2 * ma.0 + a2 * mb.0);
    assert(l.1 == b2 * ma.1 + a2 * mb.1);
    assert(ma.2 == a2 * c && mb.2 == b2 * c) by (nonlinear_arith)
        requires ma.2 == a2 * tw * th, mb.2 == b2 * tw * th, c == tw * th;
    assert(l.2 == a2 * b2 * c) by (nonlinear_arith)
        requires l.2 == s.2 * tw * th, s.2 == a2 * b2, c == tw * th;
    assert(r.0 == c * l.0) by (nonlinear_arith)
        requires r.0 == ma.0 * mb.2 + mb.0 * ma.2, ma.2 == a2 * c, mb.2 == b2 * c, l.0 == b2 * ma.0 + a2 * mb.0;
    assert(r.1 == c * l.1) by (nonlinear_arith)
        requires r.1 == ma.1 * mb.2 + mb.1 * ma.2, ma.2 == a2 * c, mb.2 == b2 * c, l.1 == b2 * ma.1 + a2 * mb.1;
    assert(r.2 == c * l.2) by (nonlinear_arith)
        requires r.2 == ma.2 * mb.2, ma.2 == a2 * c, mb.2 == b2 * c, l.2 == a2 * b2 * c;
    assert(l.0 * r.2 == r.0 * l.2) by (nonlinear_arith)
        requires r.0 == c * l.0, r.2 == c * l.2;
    assert(l.1 * r.2 == r.1 * l.2) by (nonlinear_arith)
        requires r.1 == c * l.1, r.2 == c * l.2;
    let sc = rat_scale(a, kn, kd);
    let l2 = iso_to_map(sc, tw, th);
    let r2 = rat_scale(ma, kn, kd);
    assert(l2.0 == ma.0 * kn) by (nonlinear_arith)
        requires sc.0 == a0 * kn, sc.1 == a1 * kn, l2.0 == sc.0 * th + 2 * sc.1 * tw,
            ma.0 == a0 * th + 2 * a1 * tw;
    assert(l2.1 == ma.1 * kn) by (nonlinear_arith)
        requires sc.0 == a0 * kn, sc.1 == a1 * kn, l2.1 == 2 * sc.1 * tw - sc.0 * th,
            ma.1 == 2 * a1 * tw - a0 * th;
    assert(l2.2 == ma.2 * kd) by (nonlinear_arith)
        requires sc.2 == a2 * kd, l2.2 == sc.2 * tw * th, ma.2 == a2 * tw * th;
    assert(l2 == r2);
    assert(0 * th + 2 * 0 * tw == 0) by (nonlinear_arith);
    assert(2 * 0 * tw - 0 * th == 0) by (nonlinear_arith);
}

/// One step along the map's first axis moves a world point by
/// `(tw/2, th/4)`, one step along the second by `(-tw/2, th/4)`; so, for a
/// positive tile height and positive denominators, a map point lies higher
/// on screen than another exactly when its coordinate sum is smaller.
pub proof fn law_map_to_world_steps(m: (int, int, int), n: (int, int, int), tw: int, th: int)
    ensures
        ({
            let w = iso_to_world(m, tw, th);
            let wi = iso_to_world((m.0 + m.2, m.1, m.2), tw, th);
            let wj = iso_to_world((m.0, m.1 + m.2, m.2), tw, th);
            &&& wi.2 == w.2 && wj.2 == w.2
            &&& same_point((wi.0 - w.0, wi.1 - w.1, w.2), (2 * tw, th, 4))
            &&& same_point((wj.0 - w.0, wj.1 - w.1, w.2), (-2 * tw, th, 4))
        }),
        th > 0 && m.2 > 0 && n.2 > 0 ==> (
            iso_to_world(m, tw, th).1 * iso_to_world(n, tw, th).2
                < iso_to_world(n, tw, th).1 * iso_to_world(m, tw, th).2
            <==> (m.0 + m.1) * n.2 < (n.0 + n.1) * m.2),
{
    let (a, b, d) = m;
    let w = iso_to_world(m, tw, th);
    let wi = iso_to_world((a + d, b, d), tw, th);
    let wj = iso_to_world((a, b + d, d), tw, th);
    assert(wi.0 - w.0 == 2 * tw * d) by (nonlinear_arith)
        requires wi.0 == 2 * tw * ((a + d) - b - d), w.0 == 2 * tw * (a - b - d);
    assert(wi.1 - w.1 == th * d) by (nonlinear_arith)
        requires wi.1 == th * ((a + d) + b), w.1 == th * (a + b);
    assert(wj.0 - w.0 == -2 * tw * d) by (nonlinear_arith)
        requires wj.0 == 2 * tw * (a - (b + d) - d), w.0 == 2 * tw * (a - b - d);
    assert(wj.1 - w.1 == th * d) by (nonlinear_arith)
        requires wj.1 == th * (a + (b + d)), w.1 == th * (a + b);
    assert((2 * tw * d) * 4 == (2 * tw) * (4 * d)) by (nonlinear_arith);
    assert((th * d) * 4 == th * (4 * d)) by (nonlinear_arith);
    assert((-2 * tw * d) * 4 == (-2 * tw) * (4 * d)) by (nonlinear_arith);
    if th > 0 && m.2 > 0 && n.2 > 0 {
        let (p, q, e) = n;
        let x = a + b;
        let y = p + q;
        assert((th * x) * (4 * e) < (th * y) * (4 * d) <==> x * e < y * d) by (nonlinear_arith)
            requires th > 0;
    }
}

/// A world point moved right by half a tile and taken to map space gives
/// back the map point it was projected from: the projection's shift is
/// exactly that half tile.
pub proof fn law_offset_round_trip(m: (int, int, int), tw: int, th: int)
    ensures
        ({
            let w = iso_to_world(m, tw, th);
            same_point(iso_to_map((2 * w.0 + tw * w.2, 2 * w.1, 2 * w.2), tw, th), m)
        }),
{
    let (a, b, d) = m;
    let w = iso_to_world(m, tw, th);
    let s = (2 * w.0 + tw * w.2, 2 * w.1, 2 * w.2);
    let r = iso_to_map(s, tw, th);
    assert(r.0 == 8 * tw * th * a) by (nonlinear_arith)
        requires r.0 == s.0 * th + 2 * s.1 * tw, s.0 == 2 * w.0 + tw * w.2, s.1 == 2 * w.1,
            w.0 == 2 * tw * (a - b - d), w.1 == th * (a + b), w.2 == 4 * d;
    assert(r.1 == 8 * tw * th * b) by (nonlinear_arith)
        requires r.1 == 2 * s.1 * tw - s.0 * th, s.0 == 2 * w.0 + tw * w.2, s.1 == 2 * w.1,
            w.0 == 2 * tw * (a - b - d), w.1 == th * (a + b), w.2 == 4 * d;
    assert(r.2 == 8 * d * tw * th) by (nonlinear_arith)
        requires r.2 == s.2 * tw * th, s.2 == 2 * w.2, w.2 == 4 * d;
    assert(r.0 * d == a * r.2) by (nonlinear_arith)
        requires r.0 == 8 * tw * th * a, r.2 == 8 * d * tw * th;
    assert(r.1 * d == b * r.2) by (nonlinear_arith)
        requires r.1 == 8 * tw * th * b, r.2 == 8 * d * tw * th;
}
} // verus!
