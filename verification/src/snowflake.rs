use vstd::prelude::*;
use vstd::arithmetic::div_mod::{
    lemma_add_mod_noop,
    lemma_fundamental_div_mod,
    lemma_mod_multiples_basic,
};
use vstd::arithmetic::power::{
    pow,
    lemma_pow_increases,
    lemma_pow_positive,
};

verus! {

/// A coordinate in the ring of numbers `a + b * sqrt(3)` with integer `a`
/// and `b`. The snowflake construction only ever divides an edge in three
/// and rotates it by a sixth of a turn, and both operations stay inside this
/// ring, so the generator works on exact values; a consumer that wants pixel
/// positions converts at the very end.
#[derive(Clone, Copy, Debug, PartialEq, Eq, Structural)]
pub struct Q3 {
    /// The rational part.
    pub a: i64,
    /// The coefficient of `sqrt(3)`.
    pub b: i64,
}

/// A planar point with both coordinates in the ring of [`Q3`].
#[derive(Clone, Copy, Debug, PartialEq, Eq, Structural)]
pub struct SnowPoint {
    pub x: Q3,
    pub y: Q3,
}

/// The mathematical value of a [`Q3`]: its two integer components, free of
/// any machine width.
pub struct Q3Val {
    pub a: int,
    pub b: int,
}

/// The mathematical value of a [`SnowPoint`].
pub struct PointVal {
    pub x: Q3Val,
    pub y: Q3Val,
}

impl View for Q3 {
    type V = Q3Val;

    open spec fn view(&self) -> Q3Val {
        Q3Val { a: self.a as int, b: self.b as int }
    }
}

impl View for SnowPoint {
    type V = PointVal;

    open spec fn view(&self) -> PointVal {
        PointVal { x: self.x@, y: self.y@ }
    }
}

pub open spec fn q3_add(u: Q3Val, v: Q3Val) -> Q3Val {
    Q3Val { a: u.a + v.a, b: u.b + v.b }
}

pub open spec fn q3_sub(u: Q3Val, v: Q3Val) -> Q3Val {
    Q3Val { a: u.a - v.a, b: u.b - v.b }
}

/// One third of a ring element, exact whenever both components are
/// multiples of three.
pub open spec fn q3_third(u: Q3Val) -> Q3Val {
    Q3Val { a: u.a / 3, b: u.b / 3 }
}

pub open spec fn pt_add(p: PointVal, q: PointVal) -> PointVal {
    PointVal { x: q3_add(p.x, q.x), y: q3_add(p.y, q.y) }
}

/// A vector rotated by sixty degrees: `(x, y)` goes to
/// `(x/2 - y*sqrt(3)/2, y/2 + x*sqrt(3)/2)`. Multiplying `a + b*sqrt(3)` by
/// `sqrt(3)` gives `3*b + a*sqrt(3)`, so in components the rotation is exact
/// whenever all of them are even.
pub open spec fn rot60(p: PointVal) -> PointVal {
    PointVal {
        x: Q3Val { a: (p.x.a - 3 * p.y.b) / 2, b: (p.x.b - p.y.a) / 2 },
        y: Q3Val { a: (p.y.a + 3 * p.x.b) / 2, b: (p.y.b + p.x.a) / 2 },
    }
}

/// The four points that replace the edge from `s` to `e` in one snowflake
/// generation: the edge's start, the one-third point, the tip of the outward
/// equilateral bump (the one-third vector rotated by sixty degrees, laid off
/// from the one-third point), and the two-thirds point.
pub open spec fn edge_points(s: PointVal, e: PointVal) -> Seq<PointVal> {
    let t = PointVal { x: q3_third(q3_sub(e.x, s.x)), y: q3_third(q3_sub(e.y, s.y)) };
    let u = rot60(t);
    seq![s, pt_add(s, t), pt_add(pt_add(s, t), u), pt_add(s, pt_add(t, t))]
}

/// One generation of the snowflake boundary: every edge of the closed
/// polygon, the one from the last point back to the first included, is
/// replaced by its four [`edge_points`].
pub open spec fn snow_iter(pts: Seq<PointVal>) -> Seq<PointVal> {
    Seq::new(
        pts.len() * 4,
        |j: int| edge_points(pts[j / 4], pts[(j / 4 + 1) % (pts.len() as int)])[j % 4],
    )
}

/// `n` generations of the snowflake boundary.
pub open spec fn snow_iterate(pts: Seq<PointVal>, n: nat) -> Seq<PointVal>
    decreases n,
{
    if n == 0 {
        pts
    } else {
        snow_iter(snow_iterate(pts, (n - 1) as nat))
    }
}

/// Both components are multiples of `d`.
pub open spec fn q3_divisible(u: Q3Val, d: int) -> bool {
    u.a % d == 0 && u.b % d == 0
}

/// All four components of the point are multiples of `d`.
pub open spec fn pt_divisible(p: PointVal, d: int) -> bool {
    q3_divisible(p.x, d) && q3_divisible(p.y, d)
}

/// All four components of the point lie in `[-m, m]`.
pub open spec fn pt_bounded(p: PointVal, m: int) -> bool {
    &&& -m <= p.x.a <= m
    &&& -m <= p.x.b <= m
    &&& -m <= p.y.a <= m
    &&& -m <= p.y.b <= m
}

pub open spec fn all_divisible(pts: Seq<PointVal>, d: int) -> bool {
    forall|i: int| 0 <= i < pts.len() ==> #[trigger] pt_divisible(pts[i], d)
}

pub open spec fn all_bounded(pts: Seq<PointVal>, m: int) -> bool {
    forall|i: int| 0 <= i < pts.len() ==> #[trigger] pt_bounded(pts[i], m)
}

/// The views of a sequence of points.
pub open spec fn views(s: Seq<SnowPoint>) -> Seq<PointVal> {
    s.map_values(|p: SnowPoint| p@)
}

/// The largest component magnitude the generator accepts in one generation;
/// every intermediate value then stays far inside the machine range.
pub const SNOW_BOUND: i64 = 0x1000_0000_0000_0000;

/// Exact third of a machine integer known to be a multiple of three.
fn div3(x: i64) -> (r: i64)
    requires
        x as int % 3 == 0,
        -0x4000_0000_0000_0000 <= x as int <= 0x4000_0000_0000_0000,
    ensures
        3 * (r as int) == x as int,
        r as int == (x as int) / 3,
{
    x / 3
}

/// Exact half of a machine integer known to be even.
fn half(x: i64) -> (r: i64)
    requires
        x as int % 2 == 0,
        -0x4000_0000_0000_0000 <= x as int <= 0x4000_0000_0000_0000,
    ensures
        2 * (r as int) == x as int,
        r as int == (x as int) / 2,
{
    x / 2
}

/// The difference of two multiples of six is a multiple of three, its third
/// is exact, and that third is even.
proof fn lemma_third_even(sx: int, ex: int)
    requires
        sx % 6 == 0,
        ex % 6 == 0,
    ensures
        (ex - sx) % 3 == 0,
        3 * ((ex - sx) / 3) == ex - sx,
        ((ex - sx) / 3) % 2 == 0,
{
    let d = ex - sx;
    lemma_fundamental_div_mod(sx, 6);
    lemma_fundamental_div_mod(ex, 6);
    let k = ex / 6 - sx / 6;
    assert(d == (2 * k) * 3);
    lemma_mod_multiples_basic(2 * k, 3);
    lemma_fundamental_div_mod(d, 3);
    assert(d / 3 == k * 2);
    lemma_mod_multiples_basic(k, 2);
}

/// For even `p` and `q`, both `p - 3q` and `p + 3q` are even, and their
/// halves are exact.
proof fn lemma_even_combo(p: int, q: int)
    requires
        p % 2 == 0,
        q % 2 == 0,
    ensures
        (p - 3 * q) % 2 == 0,
        (p + 3 * q) % 2 == 0,
{
    lemma_fundamental_div_mod(p, 2);
    lemma_fundamental_div_mod(q, 2);
    assert(p - 3 * q == (p / 2 - 3 * (q / 2)) * 2);
    lemma_mod_multiples_basic(p / 2 - 3 * (q / 2), 2);
    assert(p + 3 * q == (p / 2 + 3 * (q / 2)) * 2);
    lemma_mod_multiples_basic(p / 2 + 3 * (q / 2), 2);
}

/// One generation of the snowflake boundary, computed exactly: every edge of
/// the closed polygon is replaced by the four points of the one-third/bump
/// construction. The result is exactly [`snow_iter`] of the input's values,
/// so it has four times as many vertices.
#[verifier::rlimit(60)]
pub fn snowflake_iter(points: &Vec<SnowPoint>) -> (out: Vec<SnowPoint>)
    requires
        all_divisible(views(points@), 6),
        all_bounded(views(points@), SNOW_BOUND as int),
    ensures
        views(out@) == snow_iter(views(points@)),
        out@.len() == 4 * points@.len(),
{
    let ghost pvs = views(points@);
    let ghost target = snow_iter(pvs);
    let n = points.len();
    let mut out: Vec<SnowPoint> = Vec::new();
    for i in 0..n
        invariant
            n == points@.len(),
            pvs == views(points@),
            target == snow_iter(pvs),
            all_divisible(pvs, 6),
            all_bounded(pvs, SNOW_BOUND as int),
            views(out@) == target.take(4 * i as int),
            out@.len() == 4 * i,
    {
        let s = points[i];
        let j = (i + 1) % n;
        let e = points[j];
        proof {
            assert(pt_divisible(pvs[i as int], 6));
            assert(pt_bounded(pvs[i as int], SNOW_BOUND as int));
            assert(pt_divisible(pvs[j as int], 6));
            assert(pt_bounded(pvs[j as int], SNOW_BOUND as int));
            assert(s@ == pvs[i as int]);
            assert(e@ == pvs[j as int]);
            lemma_third_even(s.x.a as int, e.x.a as int);
            lemma_third_even(s.x.b as int, e.x.b as int);
            lemma_third_even(s.y.a as int, e.y.a as int);
            lemma_third_even(s.y.b as int, e.y.b as int);
        }
        let t = SnowPoint {
            x: Q3 { a: div3(e.x.a - s.x.a), b: div3(e.x.b - s.x.b) },
            y: Q3 { a: div3(e.y.a - s.y.a), b: div3(e.y.b - s.y.b) },
        };
        proof {
            lemma_even_combo(t.x.a as int, t.y.b as int);
            lemma_even_combo(t.x.b as int, t.y.a as int);
            lemma_even_combo(t.y.a as int, t.x.b as int);
            lemma_even_combo(t.y.b as int, t.x.a as int);
        }
        let u = SnowPoint {
            x: Q3 { a: half(t.x.a - 3 * t.y.b), b: half(t.x.b - t.y.a) },
            y: Q3 { a: half(t.y.a + 3 * t.x.b), b: half(t.y.b + t.x.a) },
        };
        let p1 = SnowPoint {
            x: Q3 { a: s.x.a + t.x.a, b: s.x.b + t.x.b },
            y: Q3 { a: s.y.a + t.y.a, b: s.y.b + t.y.b },
        };
        let p2 = SnowPoint {
            x: Q3 { a: p1.x.a + u.x.a, b: p1.x.b + u.x.b },
            y: Q3 { a: p1.y.a + u.y.a, b: p1.y.b + u.y.b },
        };
        let p3 = SnowPoint {
            x: Q3 { a: s.x.a + 2 * t.x.a, b: s.x.b + 2 * t.x.b },
            y: Q3 { a: s.y.a + 2 * t.y.a, b: s.y.b + 2 * t.y.b },
        };
        out.push(s);
        out.push(p1);
        out.push(p2);
        out.push(p3);
        proof {
            let sv = pvs[i as int];
            let ev = pvs[j as int];
            let ep = edge_points(sv, ev);
            assert(s@ == ep[0]);
            assert(p1@ == ep[1]);
            assert(p2@ == ep[2]);
            assert(p3@ == ep[3]);
            assert forall|k: int| 0 <= k < 4 implies target[4 * i + k] == ep[k] by {
                assert((4 * i as int + k) / 4 == i as int);
                assert((4 * i as int + k) % 4 == k);
            }
            assert(views(out@) =~= target.take(4 * (i + 1) as int));
        }
    }
    proof {
        assert(target.take(4 * n as int) =~= target);
    }
    out
}

/// Law: one generation replaces every vertex by four, so `n` generations
/// starting from a polygon of `k` vertices end with `k * 4^n` of them; from
/// the equilateral triangle, `3 * 4^n`.
pub proof fn lemma_snowflake_count(pts: Seq<PointVal>, n: nat)
    ensures
        snow_iterate(pts, n).len() == pts.len() * pow(4, n),
    decreases n,
{
    reveal(pow);
    if n == 0 {
        assert(pow(4, 0) == 1);
    } else {
        lemma_snowflake_count(pts, (n - 1) as nat);
        assert(pow(4, n) == 4 * pow(4, (n - 1) as nat));
        assert(pts.len() * pow(4, n) == (pts.len() * pow(4, (n - 1) as nat)) * 4)
            by (nonlinear_arith)
            requires
                pow(4, n) == 4 * pow(4, (n - 1) as nat),
        ;
    }
}

/// Law: one generation acts edge by edge; the four points standing where the
/// edge from a vertex to its successor stood are exactly [`edge_points`] of
/// that edge: the start, the one-third point, the one-third point moved by
/// the sixty-degree rotation of the one-third vector, and the two-thirds
/// point.
pub proof fn lemma_edge_construction(pts: Seq<PointVal>, i: int)
    requires
        0 <= i < pts.len(),
    ensures
        snow_iter(pts).len() == 4 * pts.len(),
        forall|k: int|
            0 <= k < 4 ==> #[trigger] snow_iter(pts)[4 * i + k] == edge_points(
                pts[i],
                pts[(i + 1) % (pts.len() as int)],
            )[k],
{
    assert forall|k: int| 0 <= k < 4 implies #[trigger] snow_iter(pts)[4 * i + k] == edge_points(
        pts[i],
        pts[(i + 1) % (pts.len() as int)],
    )[k] by {
        assert((4 * i + k) / 4 == i);
        assert((4 * i + k) % 4 == k);
    }
}

/// A multiple of `c * d` is a multiple of `d`.
proof fn lemma_mod_coarse(x: int, c: int, d: int)
    requires
        c >= 1,
        d >= 1,
        x % (c * d) == 0,
    ensures
        x % d == 0,
{
    assert(c * d >= 1) by (nonlinear_arith)
        requires
            c >= 1,
            d >= 1,
    ;
    lemma_fundamental_div_mod(x, c * d);
    let k = x / (c * d);
    assert(x == (c * k) * d) by (nonlinear_arith)
        requires
            x == (c * d) * k + x % (c * d),
            x % (c * d) == 0,
    ;
    lemma_mod_multiples_basic(c * k, d);
}

/// Sums of multiples of `d` are multiples of `d`.
proof fn lemma_mods_add3(x: int, y: int, z: int, d: int)
    requires
        d >= 1,
        x % d == 0,
        y % d == 0,
        z % d == 0,
    ensures
        (x + y) % d == 0,
        (x + y + z) % d == 0,
{
    lemma_mod_multiples_basic(0, d);
    lemma_add_mod_noop(x, y, d);
    lemma_add_mod_noop(x + y, z, d);
}

/// For components of multiples of `6d`, the third of a difference is exact
/// and a multiple of `2d`.
proof fn lemma_third_comp(sx: int, ex: int, d: int)
    requires
        d >= 1,
        sx % (6 * d) == 0,
        ex % (6 * d) == 0,
    ensures
        3 * ((ex - sx) / 3) == ex - sx,
        ((ex - sx) / 3) % (2 * d) == 0,
{
    assert(6 * d >= 1) by (nonlinear_arith)
        requires
            d >= 1,
    ;
    lemma_fundamental_div_mod(sx, 6 * d);
    lemma_fundamental_div_mod(ex, 6 * d);
    let k1 = sx / (6 * d);
    let k2 = ex / (6 * d);
    assert(ex - sx == ((2 * d) * (k2 - k1)) * 3) by (nonlinear_arith)
        requires
            sx == (6 * d) * k1 + sx % (6 * d),
            ex == (6 * d) * k2 + ex % (6 * d),
            sx % (6 * d) == 0,
            ex % (6 * d) == 0,
    ;
    lemma_mod_multiples_basic((2 * d) * (k2 - k1), 3);
    lemma_fundamental_div_mod(ex - sx, 3);
    let t = (ex - sx) / 3;
    assert(t == (k2 - k1) * (2 * d)) by (nonlinear_arith)
        requires
            3 * t == ((2 * d) * (k2 - k1)) * 3,
    ;
    lemma_mod_multiples_basic(k2 - k1, 2 * d);
}

/// For `p` and `q` multiples of `2d`, the half of `p + c*q` is exact and a
/// multiple of `d`, whatever the integer coefficient `c`.
proof fn lemma_half_comp(p: int, q: int, c: int, d: int)
    requires
        d >= 1,
        p % (2 * d) == 0,
        q % (2 * d) == 0,
    ensures
        2 * ((p + c * q) / 2) == p + c * q,
        ((p + c * q) / 2) % d == 0,
{
    lemma_fundamental_div_mod(p, 2 * d);
    lemma_fundamental_div_mod(q, 2 * d);
    let k = p / (2 * d);
    let l = q / (2 * d);
    assert(p + c * q == ((k + c * l) * d) * 2) by (nonlinear_arith)
        requires
            p == (2 * d) * k + p % (2 * d),
            q == (2 * d) * l + q % (2 * d),
            p % (2 * d) == 0,
            q % (2 * d) == 0,
    ;
    lemma_mod_multiples_basic((k + c * l) * d, 2);
    lemma_fundamental_div_mod(p + c * q, 2);
    assert((p + c * q) / 2 == (k + c * l) * d) by (nonlinear_arith)
        requires
            2 * ((p + c * q) / 2) == ((k + c * l) * d) * 2,
    ;
    lemma_mod_multiples_basic(k + c * l, d);
}

/// One edge's replacement points keep divisibility one factor of six down
/// and grow the component bound at most threefold.
proof fn lemma_edge_preserves(s: PointVal, e: PointVal, d: int, m: int)
    requires
        d >= 1,
        m >= 0,
        pt_divisible(s, 6 * d),
        pt_divisible(e, 6 * d),
        pt_bounded(s, m),
        pt_bounded(e, m),
    ensures
        forall|k: int|
            0 <= k < 4 ==> pt_divisible(#[trigger] edge_points(s, e)[k], d) && pt_bounded(
                edge_points(s, e)[k],
                3 * m,
            ),
{
    let t = PointVal { x: q3_third(q3_sub(e.x, s.x)), y: q3_third(q3_sub(e.y, s.y)) };
    let u = rot60(t);
    lemma_third_comp(s.x.a, e.x.a, d);
    lemma_third_comp(s.x.b, e.x.b, d);
    lemma_third_comp(s.y.a, e.y.a, d);
    lemma_third_comp(s.y.b, e.y.b, d);
    lemma_half_comp(t.x.a, t.y.b, -3, d);
    lemma_half_comp(t.x.b, t.y.a, -1, d);
    lemma_half_comp(t.y.a, t.x.b, 3, d);
    lemma_half_comp(t.y.b, t.x.a, 1, d);
    assert(u.x.a == (t.x.a + (-3) * t.y.b) / 2);
    assert(u.x.b == (t.x.b + (-1) * t.y.a) / 2);
    assert(u.y.a == (t.y.a + 3 * t.x.b) / 2);
    assert(u.y.b == (t.y.b + 1 * t.x.a) / 2);
    lemma_mod_coarse(s.x.a, 6, d);
    lemma_mod_coarse(s.x.b, 6, d);
    lemma_mod_coarse(s.y.a, 6, d);
    lemma_mod_coarse(s.y.b, 6, d);
    lemma_mod_coarse(t.x.a, 2, d);
    lemma_mod_coarse(t.x.b, 2, d);
    lemma_mod_coarse(t.y.a, 2, d);
    lemma_mod_coarse(t.y.b, 2, d);
    lemma_mods_add3(s.x.a, t.x.a, u.x.a, d);
    lemma_mods_add3(s.x.b, t.x.b, u.x.b, d);
    lemma_mods_add3(s.y.a, t.y.a, u.y.a, d);
    lemma_mods_add3(s.y.b, t.y.b, u.y.b, d);
    lemma_mods_add3(s.x.a, t.x.a, t.x.a, d);
    lemma_mods_add3(s.x.b, t.x.b, t.x.b, d);
    lemma_mods_add3(s.y.a, t.y.a, t.y.a, d);
    lemma_mods_add3(s.y.b, t.y.b, t.y.b, d);
    assert forall|k: int|
        0 <= k < 4 implies pt_divisible(#[trigger] edge_points(s, e)[k], d) && pt_bounded(
        edge_points(s, e)[k],
        3 * m,
    ) by {
        if k == 0 {
            assert(edge_points(s, e)[0] == s);
            lemma_mod_coarse(s.x.a, 6, d);
        } else if k == 1 {
            assert(edge_points(s, e)[1] == pt_add(s, t));
        } else if k == 2 {
            assert(edge_points(s, e)[2] == pt_add(pt_add(s, t), u));
        } else {
            assert(edge_points(s, e)[3] == pt_add(s, pt_add(t, t)));
        }
    }
}

/// Law: a generation started on a polygon whose components are multiples of
/// `6d` and bounded by `m` ends with components that are multiples of `d`
/// and bounded by `3m`.
pub proof fn lemma_snow_iter_preserves(pts: Seq<PointVal>, d: int, m: int)
    requires
        d >= 1,
        m >= 0,
        all_divisible(pts, 6 * d),
        all_bounded(pts, m),
    ensures
        all_divisible(snow_iter(pts), d),
        all_bounded(snow_iter(pts), 3 * m),
{
    let out = snow_iter(pts);
    assert forall|j: int| 0 <= j < out.len() implies #[trigger] pt_divisible(out[j], d)
        && pt_bounded(out[j], 3 * m) by {
        let i = j / 4;
        let k = j % 4;
        assert(0 <= i < pts.len());
        let i2 = (i + 1) % (pts.len() as int);
        assert(0 <= i2 < pts.len());
        assert(pt_divisible(pts[i], 6 * d));
        assert(pt_divisible(pts[i2], 6 * d));
        assert(pt_bounded(pts[i], m));
        assert(pt_bounded(pts[i2], m));
        lemma_edge_preserves(pts[i], pts[i2], d, m);
        assert(out[j] == edge_points(pts[i], pts[i2])[k]);
    }
    assert forall|j: int| 0 <= j < out.len() implies #[trigger] pt_bounded(out[j], 3 * m) by {
        assert(pt_divisible(out[j], d) && pt_bounded(out[j], 3 * m));
    }
}

/// Weakening the divisor: a polygon of multiples of `c * d` is one of
/// multiples of `d`.
proof fn lemma_all_divisible_coarse(pts: Seq<PointVal>, c: int, d: int)
    requires
        c >= 1,
        d >= 1,
        all_divisible(pts, c * d),
    ensures
        all_divisible(pts, d),
{
    assert forall|i: int| 0 <= i < pts.len() implies #[trigger] pt_divisible(pts[i], d) by {
        assert(pt_divisible(pts[i], c * d));
        lemma_mod_coarse(pts[i].x.a, c, d);
        lemma_mod_coarse(pts[i].x.b, c, d);
        lemma_mod_coarse(pts[i].y.a, c, d);
        lemma_mod_coarse(pts[i].y.b, c, d);
    }
}

/// Weakening the bound.
proof fn lemma_all_bounded_weaken(pts: Seq<PointVal>, m1: int, m2: int)
    requires
        m1 <= m2,
        all_bounded(pts, m1),
    ensures
        all_bounded(pts, m2),
{
    assert forall|i: int| 0 <= i < pts.len() implies #[trigger] pt_bounded(pts[i], m2) by {
        assert(pt_bounded(pts[i], m1));
    }
}

/// The concrete powers of six and three that bound the fractal driver.
proof fn lemma_pow_small_values()
    ensures
        pow(6, 13) == 13060694016,
        pow(6, 14) == 78364164096,
        pow(3, 14) == 4782969,
{
    reveal(pow);
    assert(pow(6, 0) == 1);
    assert(pow(6, 1) == 6);
    assert(pow(6, 2) == 36);
    assert(pow(6, 3) == 216);
    assert(pow(6, 4) == 1296);
    assert(pow(6, 5) == 7776);
    assert(pow(6, 6) == 46656);
    assert(pow(6, 7) == 279936);
    assert(pow(6, 8) == 1679616);
    assert(pow(6, 9) == 10077696);
    assert(pow(6, 10) == 60466176);
    assert(pow(6, 11) == 362797056);
    assert(pow(6, 12) == 2176782336);
    assert(pow(6, 13) == 13060694016);
    assert(pow(6, 14) == 78364164096);
    assert(pow(3, 0) == 1);
    assert(pow(3, 1) == 3);
    assert(pow(3, 2) == 9);
    assert(pow(3, 3) == 27);
    assert(pow(3, 4) == 81);
    assert(pow(3, 5) == 243);
    assert(pow(3, 6) == 729);
    assert(pow(3, 7) == 2187);
    assert(pow(3, 8) == 6561);
    assert(pow(3, 9) == 19683);
    assert(pow(3, 10) == 59049);
    assert(pow(3, 11) == 177147);
    assert(pow(3, 12) == 531441);
    assert(pow(3, 13) == 1594323);
    assert(pow(3, 14) == 4782969);
}

/// The equilateral triangle the snowflake starts from: the apex `(0, 1)` and
/// the base corners `(sqrt(3)/2, -1/2)` and `(-sqrt(3)/2, -1/2)`, the whole
/// figure scaled by `2u`. With `u = 6^n`, `n` generations divide exactly.
pub open spec fn base_triangle(u: int) -> Seq<PointVal> {
    seq![
        PointVal { x: Q3Val { a: 0, b: 0 }, y: Q3Val { a: 2 * u, b: 0 } },
        PointVal { x: Q3Val { a: 0, b: u }, y: Q3Val { a: -u, b: 0 } },
        PointVal { x: Q3Val { a: 0, b: -u }, y: Q3Val { a: -u, b: 0 } },
    ]
}

/// Builds the Koch snowflake boundary: the triangle of [`base_triangle`],
/// scaled by twice `6^n` so that every generation stays exact, refined for
/// `n` generations. The result is, point for point, the `n`-fold
/// [`snow_iterate`] of the triangle, and has exactly `3 * 4^n` vertices.
pub fn snowflake_fractal(n: u32) -> (out: Vec<SnowPoint>)
    requires
        n <= 14,
    ensures
        views(out@) == snow_iterate(base_triangle(pow(6, n as nat)), n as nat),
        out@.len() == 3 * pow(4, n as nat),
{
    let mut scale: i64 = 1;
    proof {
        assert(pow(6, 0) == 1) by {
            reveal(pow);
        }
    }
    for k in 0..n
        invariant
            n <= 14,
            scale as int == pow(6, k as nat),
    {
        proof {
            lemma_pow_small_values();
            lemma_pow_positive(6, k as nat);
            lemma_pow_increases(6, k as nat, 13);
            assert(pow(6, (k + 1) as nat) == 6 * pow(6, k as nat)) by {
                reveal(pow);
            }
        }
        scale = scale * 6;
    }
    proof {
        lemma_pow_small_values();
        lemma_pow_positive(6, n as nat);
        lemma_pow_increases(6, n as nat, 14);
    }
    let ghost u = pow(6, n as nat);
    let ghost tri = base_triangle(u);
    let mut cur: Vec<SnowPoint> = Vec::new();
    cur.push(SnowPoint { x: Q3 { a: 0, b: 0 }, y: Q3 { a: 2 * scale, b: 0 } });
    cur.push(SnowPoint { x: Q3 { a: 0, b: scale }, y: Q3 { a: -scale, b: 0 } });
    cur.push(SnowPoint { x: Q3 { a: 0, b: -scale }, y: Q3 { a: -scale, b: 0 } });
    proof {
        assert(views(cur@) =~= tri);
        lemma_mod_multiples_basic(0, u);
        lemma_mod_multiples_basic(1, u);
        lemma_mod_multiples_basic(-1, u);
        lemma_mod_multiples_basic(2, u);
        assert forall|i: int| 0 <= i < tri.len() implies #[trigger] pt_divisible(tri[i], u) by {
            assert(0 * u == 0 && 1 * u == u && (-1) * u == -u);
        }
        assert(pow(3, 0) == 1) by {
            reveal(pow);
        }
        assert forall|i: int| 0 <= i < tri.len() implies #[trigger] pt_bounded(
            tri[i],
            2 * pow(6, n as nat) * pow(3, 0),
        ) by {
        }
    }
    for i in 0..n
        invariant
            n <= 14,
            u == pow(6, n as nat),
            tri == base_triangle(u),
            views(cur@) == snow_iterate(tri, i as nat),
            all_divisible(views(cur@), pow(6, (n - i) as nat)),
            all_bounded(views(cur@), 2 * pow(6, n as nat) * pow(3, i as nat)),
    {
        let ghost m_i = 2 * pow(6, n as nat) * pow(3, i as nat);
        proof {
            lemma_pow_small_values();
            let d_next = pow(6, (n - i - 1) as nat);
            lemma_pow_positive(6, (n - i - 1) as nat);
            assert(pow(6, (n - i) as nat) == 6 * d_next) by {
                reveal(pow);
            }
            lemma_all_divisible_coarse(views(cur@), d_next, 6);
            lemma_pow_positive(6, n as nat);
            lemma_pow_positive(3, i as nat);
            lemma_pow_increases(6, n as nat, 14);
            lemma_pow_increases(3, i as nat, 14);
            assert(m_i <= 2 * 78364164096 * 4782969) by (nonlinear_arith)
                requires
                    m_i == 2 * pow(6, n as nat) * pow(3, i as nat),
                    0 < pow(6, n as nat) <= 78364164096,
                    0 < pow(3, i as nat) <= 4782969,
            ;
            assert(m_i >= 2) by (nonlinear_arith)
                requires
                    m_i == 2 * pow(6, n as nat) * pow(3, i as nat),
                    0 < pow(6, n as nat),
                    0 < pow(3, i as nat),
            ;
            lemma_all_bounded_weaken(views(cur@), m_i, SNOW_BOUND as int);
        }
        let next = snowflake_iter(&cur);
        proof {
            let d_next = pow(6, (n - i - 1) as nat);
            lemma_pow_positive(6, (n - i - 1) as nat);
            lemma_snow_iter_preserves(views(cur@), d_next, m_i);
            assert(pow(3, (i + 1) as nat) == 3 * pow(3, i as nat)) by {
                reveal(pow);
            }
            assert(3 * m_i == 2 * pow(6, n as nat) * pow(3, (i + 1) as nat)) by (nonlinear_arith)
                requires
                    m_i == 2 * pow(6, n as nat) * pow(3, i as nat),
                    pow(3, (i + 1) as nat) == 3 * pow(3, i as nat),
            ;
            lemma_all_bounded_weaken(
                views(next@),
                3 * m_i,
                2 * pow(6, n as nat) * pow(3, (i + 1) as nat),
            );
        }
        cur = next;
    }
    proof {
        lemma_snowflake_count(tri, n as nat);
    }
    cur
}

} // verus!
