use vstd::prelude::*;
use crate::geometry::{BoundingBox, Ray, Vec3};
use crate::rational::{lemma_le_transitive, Frac, Rational};

verus! {

/// The parameter at which a line that moves along an axis (`d != 0`) enters
/// the slab `lo..=hi` of that axis.
pub open spec fn slab_entry(o: int, d: int, lo: int, hi: int) -> Rational {
    if d > 0 {
        Rational { num: lo - o, den: d }
    } else {
        Rational { num: o - hi, den: -d }
    }
}

/// The parameter at which a line that moves along an axis (`d != 0`) leaves
/// the slab `lo..=hi` of that axis.
pub open spec fn slab_exit(o: int, d: int, lo: int, hi: int) -> Rational {
    if d > 0 {
        Rational { num: hi - o, den: d }
    } else {
        Rational { num: o - lo, den: -d }
    }
}

/// The entry into an axis's slab; `None` for a line parallel to the slab,
/// which never enters it.
pub open spec fn axis_entry(o: int, d: int, lo: int, hi: int) -> Option<Rational> {
    if d == 0 {
        None
    } else {
        Some(slab_entry(o, d, lo, hi))
    }
}

/// The exit from an axis's slab; `None` for a line parallel to the slab.
pub open spec fn axis_exit(o: int, d: int, lo: int, hi: int) -> Option<Rational> {
    if d == 0 {
        None
    } else {
        Some(slab_exit(o, d, lo, hi))
    }
}

/// A line parallel to an axis's slab lies inside it.
pub open spec fn axis_clear(o: int, d: int, lo: int, hi: int) -> bool {
    d == 0 ==> lo <= o <= hi
}

/// The later of two entries, `None` standing for "never bounded"; the first
/// is kept where both denote the same number.
pub open spec fn later(a: Option<Rational>, b: Option<Rational>) -> Option<Rational> {
    match (a, b) {
        (None, _) => b,
        (_, None) => a,
        (Some(x), Some(y)) => if x.lt(y) {
            b
        } else {
            a
        },
    }
}

/// The sooner of two exits, `None` standing for "never bounded"; the first
/// is kept where both denote the same number.
pub open spec fn sooner(a: Option<Rational>, b: Option<Rational>) -> Option<Rational> {
    match (a, b) {
        (None, _) => b,
        (_, None) => a,
        (Some(x), Some(y)) => if y.lt(x) {
            b
        } else {
            a
        },
    }
}

/// The point `o + t * d` of one axis lies within `lo..=hi`.
pub open spec fn within(o: int, d: int, lo: int, hi: int, t: Rational) -> bool {
    lo * t.den <= o * t.den + t.num * d <= hi * t.den
}

/// The coordinate `o + t * d`.
pub open spec fn coord_at(o: int, d: int, t: Rational) -> Rational {
    Rational { num: o * t.den + t.num * d, den: t.den }
}

/// One component of the normal at the entry `t`: it points against the
/// direction on an axis whose slab is entered exactly at `t`, and is zero on
/// every other axis.
pub open spec fn axis_normal(o: int, d: int, lo: int, hi: int, t: Rational) -> int {
    if d != 0 && slab_entry(o, d, lo, hi).same(t) {
        if d > 0 {
            -1
        } else {
            1
        }
    } else {
        0
    }
}

impl Ray {
    /// The point of the line at parameter `t` lies in the box.
    pub open spec fn reaches(self, bx: BoundingBox, t: Rational) -> bool {
        &&& within(self.origin.x as int, self.direction.x as int, bx.min.x as int, bx.max.x as int, t)
        &&& within(self.origin.y as int, self.direction.y as int, bx.min.y as int, bx.max.y as int, t)
        &&& within(self.origin.z as int, self.direction.z as int, bx.min.z as int, bx.max.z as int, t)
    }

    /// `t` is where the line through the ray first meets the box: the point
    /// at `t` lies in the box, and no point before it does.
    pub open spec fn first_entry(self, bx: BoundingBox, t: Rational) -> bool {
        &&& t.wf()
        &&& self.reaches(bx, t)
        &&& forall|s: Rational| s.wf() && s.lt(t) ==> !#[trigger] self.reaches(bx, s)
    }

    /// The ray hits the box: its line first meets the box at a point that is
    /// not behind the origin.
    pub open spec fn hits(self, bx: BoundingBox) -> bool {
        exists|t: Rational| t.num >= 0 && #[trigger] self.first_entry(bx, t)
    }

    /// The latest of the entries into the three slabs.
    pub open spec fn entry(self, bx: BoundingBox) -> Option<Rational> {
        later(
            later(
                axis_entry(self.origin.x as int, self.direction.x as int, bx.min.x as int, bx.max.x as int),
                axis_entry(self.origin.y as int, self.direction.y as int, bx.min.y as int, bx.max.y as int),
            ),
            axis_entry(self.origin.z as int, self.direction.z as int, bx.min.z as int, bx.max.z as int),
        )
    }

    /// The soonest of the exits from the three slabs.
    pub open spec fn exit(self, bx: BoundingBox) -> Option<Rational> {
        sooner(
            sooner(
                axis_exit(self.origin.x as int, self.direction.x as int, bx.min.x as int, bx.max.x as int),
                axis_exit(self.origin.y as int, self.direction.y as int, bx.min.y as int, bx.max.y as int),
            ),
            axis_exit(self.origin.z as int, self.direction.z as int, bx.min.z as int, bx.max.z as int),
        )
    }

    /// Every axis that the ray does not move along lies inside its slab.
    pub open spec fn clear(self, bx: BoundingBox) -> bool {
        &&& axis_clear(self.origin.x as int, self.direction.x as int, bx.min.x as int, bx.max.x as int)
        &&& axis_clear(self.origin.y as int, self.direction.y as int, bx.min.y as int, bx.max.y as int)
        &&& axis_clear(self.origin.z as int, self.direction.z as int, bx.min.z as int, bx.max.z as int)
    }

    /// The slab test: the latest entry exists, is not behind the origin and
    /// is not after the soonest exit, and no parallel axis rules the box out.
    pub open spec fn slab_test(self, bx: BoundingBox) -> bool {
        &&& self.clear(bx)
        &&& self.entry(bx) matches Some(t)
        &&& self.exit(bx) matches Some(u)
        &&& t.num >= 0
        &&& t.le(u)
    }
}

/// `t` is not before the entry `e`.
spec fn not_before(e: Option<Rational>, t: Rational) -> bool {
    e matches Some(x) ==> x.le(t)
}

/// `t` is not after the exit `e`.
spec fn not_after(e: Option<Rational>, t: Rational) -> bool {
    e matches Some(x) ==> t.le(x)
}

spec fn opt_wf(e: Option<Rational>) -> bool {
    e matches Some(x) ==> x.wf()
}

proof fn lemma_within_axis(o: int, d: int, lo: int, hi: int, t: Rational)
    requires
        t.wf(),
    ensures
        within(o, d, lo, hi, t) <==> axis_clear(o, d, lo, hi) && not_before(axis_entry(o, d, lo, hi), t)
            && not_after(axis_exit(o, d, lo, hi), t),
        opt_wf(axis_entry(o, d, lo, hi)),
        opt_wf(axis_exit(o, d, lo, hi)),
{
    let m = t.den;
    let n = t.num;
    if d == 0 {
        assert(n * d == 0);
        assert(lo * m <= o * m <==> lo <= o) by (nonlinear_arith)
            requires
                m > 0,
        ;
        assert(o * m <= hi * m <==> o <= hi) by (nonlinear_arith)
            requires
                m > 0,
        ;
    } else if d > 0 {
        assert((lo - o) * m == lo * m - o * m) by (nonlinear_arith);
        assert((hi - o) * m == hi * m - o * m) by (nonlinear_arith);
    } else {
        assert((o - hi) * m == o * m - hi * m) by (nonlinear_arith);
        assert((o - lo) * m == o * m - lo * m) by (nonlinear_arith);
        assert(n * (-d) == -(n * d)) by (nonlinear_arith);
    }
}

proof fn lemma_later(a: Option<Rational>, b: Option<Rational>, t: Rational)
    requires
        opt_wf(a),
        opt_wf(b),
        t.wf(),
    ensures
        opt_wf(later(a, b)),
        later(a, b) is None <==> a is None && b is None,
        not_before(later(a, b), t) <==> not_before(a, t) && not_before(b, t),
{
    if let (Some(x), Some(y)) = (a, b) {
        if x.lt(y) {
            if y.le(t) {
                lemma_le_transitive(x, y, t);
            }
        } else {
            if x.le(t) {
                lemma_le_transitive(y, x, t);
            }
        }
    }
}

proof fn lemma_sooner(a: Option<Rational>, b: Option<Rational>, t: Rational)
    requires
        opt_wf(a),
        opt_wf(b),
        t.wf(),
    ensures
        opt_wf(sooner(a, b)),
        sooner(a, b) is None <==> a is None && b is None,
        not_after(sooner(a, b), t) <==> not_after(a, t) && not_after(b, t),
{
    if let (Some(x), Some(y)) = (a, b) {
        if y.lt(x) {
            if t.le(y) {
                lemma_le_transitive(t, y, x);
            }
        } else {
            if t.le(x) {
                lemma_le_transitive(t, x, y);
            }
        }
    }
}

/// The points of the line that lie in the box are those between the latest
/// entry and the soonest exit, provided no parallel axis rules the box out.
pub proof fn lemma_reaches_between(ray: Ray, bx: BoundingBox, t: Rational)
    requires
        t.wf(),
    ensures
        ray.reaches(bx, t) <==> ray.clear(bx) && (ray.entry(bx) matches Some(e) ==> e.le(t)) && (ray.exit(
            bx,
        ) matches Some(u) ==> t.le(u)),
        ray.entry(bx) matches Some(e) ==> e.wf(),
        ray.exit(bx) matches Some(u) ==> u.wf(),
        ray.entry(bx) is None <==> ray.exit(bx) is None,
        ray.entry(bx) is None <==> ray.direction.x == 0 && ray.direction.y == 0 && ray.direction.z == 0,
{
    let (ox, dx, lx, hx) = (ray.origin.x as int, ray.direction.x as int, bx.min.x as int, bx.max.x as int);
    let (oy, dy, ly, hy) = (ray.origin.y as int, ray.direction.y as int, bx.min.y as int, bx.max.y as int);
    let (oz, dz, lz, hz) = (ray.origin.z as int, ray.direction.z as int, bx.min.z as int, bx.max.z as int);
    lemma_within_axis(ox, dx, lx, hx, t);
    lemma_within_axis(oy, dy, ly, hy, t);
    lemma_within_axis(oz, dz, lz, hz, t);
    let exy = later(axis_entry(ox, dx, lx, hx), axis_entry(oy, dy, ly, hy));
    lemma_later(axis_entry(ox, dx, lx, hx), axis_entry(oy, dy, ly, hy), t);
    lemma_later(exy, axis_entry(oz, dz, lz, hz), t);
    let uxy = sooner(axis_exit(ox, dx, lx, hx), axis_exit(oy, dy, ly, hy));
    lemma_sooner(axis_exit(ox, dx, lx, hx), axis_exit(oy, dy, ly, hy), t);
    lemma_sooner(uxy, axis_exit(oz, dz, lz, hz), t);
}

/// Where the slab test succeeds, the latest entry is the first point of the
/// line that lies in the box.
pub proof fn lemma_slab_entry_is_first(ray: Ray, bx: BoundingBox)
    requires
        ray.slab_test(bx),
    ensures
        ray.first_entry(bx, ray.entry(bx)->0),
        ray.hits(bx),
{
    let t = ray.entry(bx)->0;
    lemma_reaches_between(ray, bx, t);
    assert forall|s: Rational| s.wf() && s.lt(t) implies !#[trigger] ray.reaches(bx, s) by {
        lemma_reaches_between(ray, bx, s);
    }
    assert(ray.first_entry(bx, t));
}

/// Two first entries of one line into one box denote the same number.
pub proof fn lemma_first_entry_unique(ray: Ray, bx: BoundingBox, t1: Rational, t2: Rational)
    requires
        ray.first_entry(bx, t1),
        ray.first_entry(bx, t2),
    ensures
        t1.same(t2),
{
    if t1.lt(t2) {
        assert(!ray.reaches(bx, t1));
    }
    if t2.lt(t1) {
        assert(!ray.reaches(bx, t2));
    }
}

/// Where the slab test fails, the line has no first point in the box at or
/// after the origin.
pub proof fn lemma_slab_miss_is_miss(ray: Ray, bx: BoundingBox)
    requires
        !ray.slab_test(bx),
    ensures
        !ray.hits(bx),
{
    assert forall|t: Rational| t.num >= 0 implies !#[trigger] ray.first_entry(bx, t) by {
        if ray.first_entry(bx, t) {
            lemma_reaches_between(ray, bx, t);
            match ray.entry(bx) {
                None => {
                    let s = Rational { num: t.num - t.den, den: t.den };
                    lemma_reaches_between(ray, bx, s);
                    assert(s.lt(t)) by (nonlinear_arith)
                        requires
                            s.num == t.num - t.den,
                            s.den == t.den,
                            t.den > 0,
                    ;
                    assert(ray.reaches(bx, s));
                },
                Some(e) => {
                    let u = ray.exit(bx)->0;
                    lemma_le_transitive(e, t, u);
                    assert(e.num < 0);
                    lemma_reaches_between(ray, bx, e);
                    assert(e.lt(t)) by (nonlinear_arith)
                        requires
                            e.num < 0,
                            t.num >= 0,
                            e.den > 0,
                            t.den > 0,
                    ;
                    assert(ray.reaches(bx, e));
                },
            }
        }
    }
}

/// Where a ray meets a box.
#[derive(Clone, Copy, Debug, PartialEq, Eq, Structural)]
pub struct RayHit {
    /// The ray parameter of the meeting point: its distance from the
    /// origin, measured in lengths of the direction.
    pub distance: Frac,
    /// The meeting point.
    pub point: Point3,
    /// The outward direction of the face, edge or corner that is met.
    pub normal: Vec3,
}

/// A point of world space that need not lie on whole units.
#[derive(Clone, Copy, Debug, PartialEq, Eq, Structural)]
pub struct Point3 {
    pub x: Frac,
    pub y: Frac,
    pub z: Frac,
}

impl RayHit {
    /// `self` describes where `ray` hits `bx`: at the latest slab entry,
    /// which is the first point of the ray's line in the box, with the
    /// point and the normal that belong to it.
    pub open spec fn is_hit_of(self, ray: Ray, bx: BoundingBox) -> bool {
        let (o, d) = (ray.origin, ray.direction);
        let t = self.distance@;
        &&& ray.entry(bx) == Some(t)
        &&& t.wf()
        &&& t.num >= 0
        &&& ray.first_entry(bx, t)
        &&& self.point.x@ == coord_at(o.x as int, d.x as int, t)
        &&& self.point.y@ == coord_at(o.y as int, d.y as int, t)
        &&& self.point.z@ == coord_at(o.z as int, d.z as int, t)
        &&& self.normal.x == axis_normal(o.x as int, d.x as int, bx.min.x as int, bx.max.x as int, t)
        &&& self.normal.y == axis_normal(o.y as int, d.y as int, bx.min.y as int, bx.max.y as int, t)
        &&& self.normal.z == axis_normal(o.z as int, d.z as int, bx.min.z as int, bx.max.z as int, t)
    }
}

spec fn opt_view(a: Option<Frac>) -> Option<Rational> {
    match a {
        None => None,
        Some(f) => Some(f@),
    }
}

spec fn slab_bounded(f: Frac) -> bool {
    &&& 0 < f.den <= 0x8000_0000
    &&& -0xffff_ffff <= f.num <= 0xffff_ffff
}

spec fn opt_bounded(a: Option<Frac>) -> bool {
    a matches Some(f) ==> slab_bounded(f)
}

fn entry_on(o: i32, d: i32, lo: i32, hi: i32) -> (out: Option<Frac>)
    ensures
        opt_view(out) == axis_entry(o as int, d as int, lo as int, hi as int),
        opt_bounded(out),
{
    if d == 0 {
        None
    } else if d > 0 {
        Some(Frac { num: lo as i128 - o as i128, den: d as i128 })
    } else {
        Some(Frac { num: o as i128 - hi as i128, den: -(d as i128) })
    }
}

fn exit_on(o: i32, d: i32, lo: i32, hi: i32) -> (out: Option<Frac>)
    ensures
        opt_view(out) == axis_exit(o as int, d as int, lo as int, hi as int),
        opt_bounded(out),
{
    if d == 0 {
        None
    } else if d > 0 {
        Some(Frac { num: hi as i128 - o as i128, den: d as i128 })
    } else {
        Some(Frac { num: o as i128 - lo as i128, den: -(d as i128) })
    }
}

proof fn lemma_cross_fits(n: i128, m: i128)
    requires
        -0xffff_ffff <= n <= 0xffff_ffff,
        0 < m <= 0x8000_0000,
    ensures
        -0x8000_0000_0000_0000 <= n * m <= 0x8000_0000_0000_0000,
{
    assert(-0x8000_0000_0000_0000 <= n * m <= 0x8000_0000_0000_0000) by (nonlinear_arith)
        requires
            -0xffff_ffff <= n <= 0xffff_ffff,
            0 < m <= 0x8000_0000,
    ;
}

fn frac_lt(a: Frac, b: Frac) -> (out: bool)
    requires
        slab_bounded(a),
        slab_bounded(b),
    ensures
        out == a@.lt(b@),
{
    proof {
        lemma_cross_fits(a.num, b.den);
        lemma_cross_fits(b.num, a.den);
    }
    a.num * b.den < b.num * a.den
}

fn frac_same(a: Frac, b: Frac) -> (out: bool)
    requires
        slab_bounded(a),
        slab_bounded(b),
    ensures
        out == a@.same(b@),
{
    proof {
        lemma_cross_fits(a.num, b.den);
        lemma_cross_fits(b.num, a.den);
    }
    a.num * b.den == b.num * a.den
}

fn later_of(a: Option<Frac>, b: Option<Frac>) -> (out: Option<Frac>)
    requires
        opt_bounded(a),
        opt_bounded(b),
    ensures
        opt_view(out) == later(opt_view(a), opt_view(b)),
        opt_bounded(out),
{
    match (a, b) {
        (None, _) => b,
        (_, None) => a,
        (Some(x), Some(y)) => if frac_lt(x, y) {
            b
        } else {
            a
        },
    }
}

fn sooner_of(a: Option<Frac>, b: Option<Frac>) -> (out: Option<Frac>)
    requires
        opt_bounded(a),
        opt_bounded(b),
    ensures
        opt_view(out) == sooner(opt_view(a), opt_view(b)),
        opt_bounded(out),
{
    match (a, b) {
        (None, _) => b,
        (_, None) => a,
        (Some(x), Some(y)) => if frac_lt(y, x) {
            b
        } else {
            a
        },
    }
}

fn clear_on(o: i32, d: i32, lo: i32, hi: i32) -> (out: bool)
    ensures
        out == axis_clear(o as int, d as int, lo as int, hi as int),
{
    d != 0 || (lo <= o && o <= hi)
}

fn coord_on(o: i32, d: i32, t: Frac) -> (out: Frac)
    requires
        slab_bounded(t),
    ensures
        out.wf(),
        out@ == coord_at(o as int, d as int, t@),
{
    let ow: i128 = o as i128;
    let dw: i128 = d as i128;
    assert(-0x4000_0000_0000_0000 <= ow * t.den <= 0x4000_0000_0000_0000) by (nonlinear_arith)
        requires
            -0x8000_0000 <= ow <= 0x7fff_ffff,
            0 < t.den <= 0x8000_0000,
    ;
    assert(-0x8000_0000_0000_0000 <= t.num * dw <= 0x8000_0000_0000_0000) by (nonlinear_arith)
        requires
            -0x8000_0000 <= dw <= 0x7fff_ffff,
            -0xffff_ffff <= t.num <= 0xffff_ffff,
    ;
    Frac { num: ow * t.den + t.num * dw, den: t.den }
}

fn normal_on(o: i32, d: i32, lo: i32, hi: i32, t: Frac) -> (out: i32)
    requires
        slab_bounded(t),
    ensures
        out == axis_normal(o as int, d as int, lo as int, hi as int, t@),
{
    match entry_on(o, d, lo, hi) {
        None => 0,
        Some(e) => if frac_same(e, t) {
            if d > 0 {
                -1
            } else {
                1
            }
        } else {
            0
        },
    }
}

/// Tests a ray against an axis-aligned box by the slab method. The ray hits
/// where its line first meets the box at or after the origin; a ray that
/// starts inside the box, points away from it or has no direction misses.
pub fn intersect(ray: &Ray, bx: &BoundingBox) -> (out: Option<RayHit>)
    ensures
        out is Some <==> ray.hits(*bx),
        out is Some <==> ray.slab_test(*bx),
        out matches Some(hit) ==> hit.is_hit_of(*ray, *bx),
{
    let o = ray.origin;
    let d = ray.direction;
    proof {
        if ray.slab_test(*bx) {
            lemma_slab_entry_is_first(*ray, *bx);
        } else {
            lemma_slab_miss_is_miss(*ray, *bx);
        }
    }
    let clear = clear_on(o.x, d.x, bx.min.x, bx.max.x) && clear_on(o.y, d.y, bx.min.y, bx.max.y)
        && clear_on(o.z, d.z, bx.min.z, bx.max.z);
    if !clear {
        return None;
    }
    let entry = later_of(
        later_of(entry_on(o.x, d.x, bx.min.x, bx.max.x), entry_on(o.y, d.y, bx.min.y, bx.max.y)),
        entry_on(o.z, d.z, bx.min.z, bx.max.z),
    );
    let exit = sooner_of(
        sooner_of(exit_on(o.x, d.x, bx.min.x, bx.max.x), exit_on(o.y, d.y, bx.min.y, bx.max.y)),
        exit_on(o.z, d.z, bx.min.z, bx.max.z),
    );
    match (entry, exit) {
        (Some(t), Some(u)) => {
            if t.num < 0 || frac_lt(u, t) {
                return None;
            }
            Some(
                RayHit {
                    distance: t,
                    point: Point3 { x: coord_on(o.x, d.x, t), y: coord_on(o.y, d.y, t), z: coord_on(o.z, d.z, t) },
                    normal: Vec3 {
                        x: normal_on(o.x, d.x, bx.min.x, bx.max.x, t),
                        y: normal_on(o.y, d.y, bx.min.y, bx.max.y, t),
                        z: normal_on(o.z, d.z, bx.min.z, bx.max.z, t),
                    },
                },
            )
        },
        _ => None,
    }
}

} // verus!
