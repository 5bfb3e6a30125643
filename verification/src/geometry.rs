//! The geometry engine: projects one infinite family of parallel, evenly
//! spaced lines onto a rectangular viewport, as an ordered run of exact
//! line segments.
//!
//! Coordinates, spacings and angles are micro-units: one drawing unit is
//! `SCALE` micro-units, one degree is `SCALE` micro-degrees, and a direction
//! is a cosine/sine pair scaled by `TRIG_ONE`.  Every emitted endpoint is an
//! exact rational, a numerator over the segment's common denominator, so the
//! whole projection is a pure function on integers with no rounding anywhere.

use crate::arith::{lemma_mag_mul, lemma_mul_mono, lemma_tdiv, mag, tdiv, tdiv_i128};
use vstd::arithmetic::div_mod::{
    lemma_add_mod_noop, lemma_mod_bound, lemma_mod_sub_multiples_vanish, lemma_small_mod,
};
use vstd::arithmetic::mul::{lemma_mul_is_distributive_add, lemma_mul_strict_inequality};
use vstd::prelude::*;

verus! {

/// Micro-units per drawing unit (and micro-degrees per degree).
pub const SCALE: i64 = 1_000_000;

/// `SCALE * SCALE`, the scale of a center numerator.
pub const SCALE_SQ: i128 = 1_000_000_000_000;

/// A full rotation, in micro-degrees.
pub const FULL_TURN: i64 = 360_000_000;

/// Half a rotation, in micro-degrees.
pub const HALF_TURN: i64 = 180_000_000;

/// A quarter rotation, in micro-degrees.
pub const QUARTER_TURN: i64 = 90_000_000;

/// 45 degrees, in micro-degrees.
pub const DEG_45: i64 = 45_000_000;

/// 135 degrees, in micro-degrees.
pub const DEG_135: i64 = 135_000_000;

/// The trig value 1, scaled.
pub const TRIG_ONE: i64 = 1_000_000;

/// `1/sqrt(2)` scaled by `TRIG_ONE`, rounded to nearest.
pub const RSQRT2: i64 = 707_107;

/// `-1/sqrt(2)` scaled by `TRIG_ONE`, rounded to nearest.
pub const NEG_RSQRT2: i64 = -707_107;

/// Every direction component the selected axis divides by must reach this
/// floor, which `1/sqrt(2)` safely clears: the axis choice guarantees the
/// divisor is the larger trig component.
pub const TRIG_FLOOR: i64 = 707_106;

/// Largest accepted magnitude, in micro-units, of a coordinate, a spacing,
/// or a center offset: a machine limit that keeps every intermediate
/// product well inside `i128`.
pub const COORD_LIMIT: i64 = 1_000_000_000_000;

/// Largest magnitude of a center numerator (`COORD_LIMIT * SCALE_SQ` plus
/// the center-offset correction), with headroom.
pub const CENTER_NUM_LIMIT: i128 = 2_000_000_000_000_000_000_000_000_000_000;

/// An axis-aligned rectangle, in micro-units.
#[derive(Clone, Copy, Debug, PartialEq, Eq, Structural)]
pub struct Rect {
    pub min_x: i64,
    pub max_x: i64,
    pub min_y: i64,
    pub max_y: i64,
}

impl Rect {
    /// The rectangle invariant: each minimum lies strictly below its maximum.
    pub open spec fn valid(self) -> bool {
        self.min_x < self.max_x && self.min_y < self.max_y
    }

    /// All four edges are within the machine limit.
    pub open spec fn bounded(self) -> bool {
        &&& mag(self.min_x as int) <= COORD_LIMIT
        &&& mag(self.max_x as int) <= COORD_LIMIT
        &&& mag(self.min_y as int) <= COORD_LIMIT
        &&& mag(self.max_y as int) <= COORD_LIMIT
    }

    /// Runtime check of the rectangle invariant.
    pub fn is_valid(&self) -> (r: bool)
        ensures
            r == self.valid(),
    {
        self.min_x < self.max_x && self.min_y < self.max_y
    }
}

/// A direction given as a scaled cosine/sine pair.
#[derive(Clone, Copy, Debug, PartialEq, Eq, Structural)]
pub struct Trig {
    pub cos: i64,
    pub sin: i64,
}

/// One infinite grid family: evenly spaced parallel lines through a center
/// point, rotated clockwise from vertical, with optional styling.
///
/// `trig` carries the direction of the normalized angle, supplied by the
/// caller for angles the library has no exact table entry for; at 0, 45, 90
/// and 135 degrees the library uses its own exact values and ignores it.
#[derive(Clone, Debug)]
pub struct GridSpec {
    pub cx: i64,
    pub cy: i64,
    pub step: i64,
    pub center_position: i64,
    pub theta: i64,
    pub trig: Trig,
    pub stroke: Option<String>,
    pub stroke_width: Option<i64>,
}

/// One emitted line segment: each endpoint coordinate is the exact rational
/// `numerator / den`, in micro-units.
#[derive(Clone, Copy, Debug, PartialEq, Eq, Structural)]
pub struct Segment {
    pub x1: i128,
    pub y1: i128,
    pub x2: i128,
    pub y2: i128,
    pub den: i128,
}

/// The mathematical value of a `Segment`.
pub ghost struct SegmentModel {
    pub x1: int,
    pub y1: int,
    pub x2: int,
    pub y2: int,
    pub den: int,
}

impl View for Segment {
    type V = SegmentModel;

    open spec fn view(&self) -> SegmentModel {
        SegmentModel {
            x1: self.x1 as int,
            y1: self.y1 as int,
            x2: self.x2 as int,
            y2: self.y2 as int,
            den: self.den as int,
        }
    }
}

/// The angle reduced by a true (always non-negative) modulo into
/// `[0, HALF_TURN)`: a line family is unchanged by a half rotation combined
/// with a step-sign flip.
pub open spec fn norm_theta(theta: int) -> int {
    let m = theta % (FULL_TURN as int);
    if m >= HALF_TURN {
        m - HALF_TURN
    } else {
        m
    }
}

/// The step after the half-rotation collapse: negated exactly when the
/// reduced angle needed a half turn removed.
pub open spec fn eff_step(theta: int, step: int) -> int {
    if theta % (FULL_TURN as int) >= HALF_TURN {
        -step
    } else {
        step
    }
}

/// Families at `[45, 135)` degrees are more horizontal than vertical; the
/// projection then works along the y axis, dividing by the sine, which this
/// classification guarantees is the larger trig component.
pub open spec fn is_horizontal(tn: int) -> bool {
    DEG_45 <= tn < DEG_135
}

/// The exact direction table for the four axis-aligned angles.
pub open spec fn exact_trig_spec(tn: int) -> Option<Trig> {
    if tn == 0 {
        Some(Trig { cos: TRIG_ONE, sin: 0 })
    } else if tn == DEG_45 {
        Some(Trig { cos: RSQRT2, sin: RSQRT2 })
    } else if tn == QUARTER_TURN {
        Some(Trig { cos: 0, sin: TRIG_ONE })
    } else if tn == DEG_135 {
        Some(Trig { cos: NEG_RSQRT2, sin: RSQRT2 })
    } else {
        None
    }
}

/// The direction the projection actually uses: the exact table entry where
/// one exists, the caller-supplied direction otherwise.
pub open spec fn effective_trig(tn: int, t: Trig) -> Trig {
    match exact_trig_spec(tn) {
        Some(e) => e,
        None => t,
    }
}

/// What the projection demands of the effective direction: components are
/// scaled trig values, the sine is non-negative (the normalized angle is in
/// `[0, 180)` degrees), and the component the selected axis divides by
/// reaches the conditioning floor.  True directions of normalized angles
/// always satisfy this.
pub open spec fn trig_ok(tn: int, t: Trig) -> bool {
    let e = effective_trig(tn, t);
    &&& -TRIG_ONE <= e.cos <= TRIG_ONE
    &&& 0 <= e.sin <= TRIG_ONE
    &&& if is_horizontal(tn) {
        e.sin >= TRIG_FLOOR
    } else {
        mag(e.cos as int) >= TRIG_FLOOR
    }
}

impl GridSpec {
    /// All numeric fields are within the machine limit.
    pub open spec fn bounded(self) -> bool {
        &&& mag(self.cx as int) <= COORD_LIMIT
        &&& mag(self.cy as int) <= COORD_LIMIT
        &&& mag(self.step as int) <= COORD_LIMIT
        &&& mag(self.center_position as int) <= COORD_LIMIT
    }

    /// The supplied direction is acceptable for this grid's angle.
    pub open spec fn dir_ok(self) -> bool {
        trig_ok(norm_theta(self.theta as int), self.trig)
    }
}

/// Numerator, over `SCALE_SQ`, of the x coordinate of the corrected center:
/// the nominal center moved backward along the perpendicular by
/// `step * center_position`, which repositions the zeroth line.
pub open spec fn center_x_num(g: GridSpec) -> int {
    let tn = norm_theta(g.theta as int);
    let st = eff_step(g.theta as int, g.step as int);
    let e = effective_trig(tn, g.trig);
    g.cx * SCALE_SQ - e.cos * st * g.center_position
}

/// Numerator, over `SCALE_SQ`, of the y coordinate of the corrected center.
pub open spec fn center_y_num(g: GridSpec) -> int {
    let tn = norm_theta(g.theta as int);
    let st = eff_step(g.theta as int, g.step as int);
    let e = effective_trig(tn, g.trig);
    g.cy * SCALE_SQ - e.sin * st * g.center_position
}

/// The resolved projection of one grid against one viewport, with the axes
/// already chosen: every emitted quantity is a numerator over `den`.
///
/// `n0` and `n1` are the intercepts of the zeroth line on the two fixed
/// edges, `dn` the (positive) spacing between adjacent line intercepts, and
/// `lo`/`hi` the viewport's moving-axis edges, all over `den`.
pub ghost struct ProjModel {
    pub horizontal: bool,
    pub den: int,
    pub n0: int,
    pub n1: int,
    pub dn: int,
    pub lo: int,
    pub hi: int,
    pub fixed_min: int,
    pub fixed_max: int,
}

/// One projection branch.  `tm` is the trig component along the moving axis
/// (the divisor), `to` the other component, `mc`/`fc` the corrected center
/// numerators over `SCALE_SQ` on the moving and fixed axis, and `st` the
/// effective step.
pub open spec fn branch_model(
    tm: int,
    to: int,
    mc: int,
    fc: int,
    mov_min: int,
    mov_max: int,
    fix_min: int,
    fix_max: int,
    st: int,
    horizontal: bool,
) -> ProjModel {
    let den = mag(tm) * SCALE_SQ;
    let raw0 = mc * tm + to * (fc - fix_min * SCALE_SQ);
    let raw1 = mc * tm + to * (fc - fix_max * SCALE_SQ);
    ProjModel {
        horizontal,
        den,
        n0: if tm >= 0 {
            raw0
        } else {
            -raw0
        },
        n1: if tm >= 0 {
            raw1
        } else {
            -raw1
        },
        dn: mag(st) * SCALE * SCALE_SQ,
        lo: mov_min * den,
        hi: mov_max * den,
        fixed_min: fix_min,
        fixed_max: fix_max,
    }
}

/// The resolved projection of a grid against a viewport: the more
/// horizontal families project along y, all others along x.
pub open spec fn proj_model(g: GridSpec, vp: Rect) -> ProjModel {
    let tn = norm_theta(g.theta as int);
    let st = eff_step(g.theta as int, g.step as int);
    let e = effective_trig(tn, g.trig);
    let axn = center_x_num(g);
    let ayn = center_y_num(g);
    if is_horizontal(tn) {
        branch_model(
            e.sin as int,
            e.cos as int,
            ayn,
            axn,
            vp.min_y as int,
            vp.max_y as int,
            vp.min_x as int,
            vp.max_x as int,
            st,
            true,
        )
    } else {
        branch_model(
            e.cos as int,
            e.sin as int,
            axn,
            ayn,
            vp.min_x as int,
            vp.max_x as int,
            vp.min_y as int,
            vp.max_y as int,
            st,
            false,
        )
    }
}

/// Smallest emitted line index: the intercept range start, derived by
/// truncating division with a one-spacing safety margin below.
pub open spec fn min_index(p: ProjModel) -> int {
    tdiv(p.lo - vstd::math::max(p.n0, p.n1) - p.dn, p.dn)
}

/// Largest emitted line index, with a one-spacing safety margin above.
pub open spec fn max_index(p: ProjModel) -> int {
    tdiv(p.hi - vstd::math::min(p.n0, p.n1) + p.dn, p.dn)
}

/// How many segments the projection emits.
pub open spec fn num_segments(p: ProjModel) -> int {
    if max_index(p) >= min_index(p) {
        max_index(p) - min_index(p) + 1
    } else {
        0
    }
}

/// The segment of line index `i`: it spans the viewport between the two
/// fixed edges, its moving-axis intercepts offset by `i` spacings.
pub open spec fn seg_model_at(p: ProjModel, i: int) -> SegmentModel {
    if p.horizontal {
        SegmentModel {
            x1: p.fixed_min * p.den,
            y1: p.n0 + p.dn * i,
            x2: p.fixed_max * p.den,
            y2: p.n1 + p.dn * i,
            den: p.den,
        }
    } else {
        SegmentModel {
            x1: p.n0 + p.dn * i,
            y1: p.fixed_min * p.den,
            x2: p.n1 + p.dn * i,
            y2: p.fixed_max * p.den,
            den: p.den,
        }
    }
}

/// The full ordered emission of one grid: the segments of all indices from
/// `min_index` to `max_index`, ascending.
pub open spec fn project_model(g: GridSpec, vp: Rect) -> Seq<SegmentModel> {
    let p = proj_model(g, vp);
    Seq::new(num_segments(p) as nat, |k: int| seg_model_at(p, min_index(p) + k))
}

/// The errors a projection or an assembly can report.
#[derive(Clone, Copy, Debug, PartialEq, Eq, Structural)]
pub enum GridError {
    /// A rectangle broke the `min < max` invariant on some axis.
    InvalidViewport,
    /// A grid's spacing was zero.
    InvalidGrid,
}

/// Reduces an angle in micro-degrees into `[0, HALF_TURN)` by the true
/// modulo (the result is non-negative whatever the sign of the input).
pub fn normalize_theta(theta: i64) -> (r: i64)
    ensures
        r == norm_theta(theta as int),
        0 <= r < HALF_TURN,
{
    proof {
        lemma_mod_bound(theta as int, FULL_TURN as int);
    }
    let m: i64 = match theta.checked_rem_euclid(FULL_TURN) {
        Some(v) => v,
        None => 0,
    };
    if m >= HALF_TURN {
        m - HALF_TURN
    } else {
        m
    }
}

/// The exact scaled direction of the four axis-aligned normalized angles,
/// `None` for every other angle: at 0 and 90 degrees the components are
/// exactly 0 and 1, at 45 and 135 degrees both components share one scaled
/// `1/sqrt(2)` value, so the line direction itself is exact.
pub fn exact_trig(tn: i64) -> (r: Option<Trig>)
    ensures
        r == exact_trig_spec(tn as int),
{
    if tn == 0 {
        Some(Trig { cos: TRIG_ONE, sin: 0 })
    } else if tn == DEG_45 {
        Some(Trig { cos: RSQRT2, sin: RSQRT2 })
    } else if tn == QUARTER_TURN {
        Some(Trig { cos: 0, sin: TRIG_ONE })
    } else if tn == DEG_135 {
        Some(Trig { cos: NEG_RSQRT2, sin: RSQRT2 })
    } else {
        None
    }
}

/// Projects one resolved branch: emits the segment of every line index in
/// the covering range, ascending.  Argument roles are as in `branch_model`.
#[verifier::loop_isolation(false)]
#[verifier::rlimit(60)]
fn project_branch(
    tm: i64,
    to: i64,
    mc: i128,
    fc: i128,
    mov_min: i64,
    mov_max: i64,
    fix_min: i64,
    fix_max: i64,
    st: i64,
    horizontal: bool,
) -> (r: Vec<Segment>)
    requires
        tm != 0,
        mag(tm as int) <= TRIG_ONE,
        mag(to as int) <= TRIG_ONE,
        mag(mc as int) <= CENTER_NUM_LIMIT,
        mag(fc as int) <= CENTER_NUM_LIMIT,
        mag(mov_min as int) <= COORD_LIMIT,
        mag(mov_max as int) <= COORD_LIMIT,
        mag(fix_min as int) <= COORD_LIMIT,
        mag(fix_max as int) <= COORD_LIMIT,
        st != 0,
        mag(st as int) <= COORD_LIMIT,
    ensures
        ({
            let p = branch_model(
                tm as int,
                to as int,
                mc as int,
                fc as int,
                mov_min as int,
                mov_max as int,
                fix_min as int,
                fix_max as int,
                st as int,
                horizontal,
            );
            &&& r@.len() == num_segments(p)
            &&& forall|k: int| 0 <= k < r@.len() ==> r@[k]@ == seg_model_at(p, min_index(p) + k)
        }),
{
    let ghost p = branch_model(
        tm as int,
        to as int,
        mc as int,
        fc as int,
        mov_min as int,
        mov_max as int,
        fix_min as int,
        fix_max as int,
        st as int,
        horizontal,
    );
    let tm_l: i128 = tm as i128;
    let to_l: i128 = to as i128;
    let tma: i128 = if tm >= 0 {
        tm_l
    } else {
        -tm_l
    };
    let den: i128 = tma * SCALE_SQ;
    assert(den == p.den);
    assert(0 < den <= 1_000_000_000_000_000_000);

    let inner0: i128 = fc - (fix_min as i128) * SCALE_SQ;
    let inner1: i128 = fc - (fix_max as i128) * SCALE_SQ;
    assert(mag(inner0 as int) <= 3_000_000_000_000_000_000_000_000_000_000);
    assert(mag(inner1 as int) <= 3_000_000_000_000_000_000_000_000_000_000);
    proof {
        lemma_mag_mul(mc as int, tm as int, CENTER_NUM_LIMIT as int, TRIG_ONE as int);
        lemma_mag_mul(
            to as int,
            inner0 as int,
            TRIG_ONE as int,
            3_000_000_000_000_000_000_000_000_000_000int,
        );
        lemma_mag_mul(
            to as int,
            inner1 as int,
            TRIG_ONE as int,
            3_000_000_000_000_000_000_000_000_000_000int,
        );
    }
    let raw0: i128 = mc * tm_l + to_l * inner0;
    let raw1: i128 = mc * tm_l + to_l * inner1;
    let n0: i128 = if tm >= 0 {
        raw0
    } else {
        -raw0
    };
    let n1: i128 = if tm >= 0 {
        raw1
    } else {
        -raw1
    };
    assert(n0 == p.n0);
    assert(n1 == p.n1);
    assert(mag(n0 as int) <= 5_000_000_000_000_000_000_000_000_000_000_000_000);
    assert(mag(n1 as int) <= 5_000_000_000_000_000_000_000_000_000_000_000_000);

    let st_abs: i128 = if st >= 0 {
        st as i128
    } else {
        -(st as i128)
    };
    let dn: i128 = st_abs * 1_000_000 * SCALE_SQ;
    assert(dn == p.dn);
    assert(0 < dn <= 1_000_000_000_000_000_000_000_000_000_000);

    proof {
        lemma_mag_mul(mov_min as int, den as int, COORD_LIMIT as int, den as int);
        lemma_mag_mul(mov_max as int, den as int, COORD_LIMIT as int, den as int);
        lemma_mag_mul(fix_min as int, den as int, COORD_LIMIT as int, den as int);
        lemma_mag_mul(fix_max as int, den as int, COORD_LIMIT as int, den as int);
    }
    let lo: i128 = (mov_min as i128) * den;
    let hi: i128 = (mov_max as i128) * den;
    let fmin_s: i128 = (fix_min as i128) * den;
    let fmax_s: i128 = (fix_max as i128) * den;
    assert(lo == p.lo && hi == p.hi);

    let nmax: i128 = if n0 >= n1 {
        n0
    } else {
        n1
    };
    let nmin: i128 = if n0 <= n1 {
        n0
    } else {
        n1
    };
    let am: i128 = lo - nmax - dn;
    let bm: i128 = hi - nmin + dn;
    proof {
        lemma_tdiv(am as int, dn as int);
        lemma_tdiv(bm as int, dn as int);
    }
    let mi: i128 = tdiv_i128(am, dn);
    let ma: i128 = tdiv_i128(bm, dn);
    assert(mi as int == min_index(p));
    assert(ma as int == max_index(p));
    assert(mag(am as int) <= 7_000_000_000_000_000_000_000_000_000_000_000_000);
    assert(mag(bm as int) <= 7_000_000_000_000_000_000_000_000_000_000_000_000);
    assert(mag(mi as int * dn as int) <= mag(am as int));
    assert(mag(ma as int * dn as int) <= mag(bm as int));

    let mut out: Vec<Segment> = Vec::new();
    let mut i: i128 = mi;
    while i <= ma
        invariant
            mi <= i,
            i <= ma + 1 || i == mi,
            out@.len() == i - mi,
            forall|k: int| 0 <= k < out@.len() ==> out@[k]@ == seg_model_at(p, mi as int + k),
        decreases ma + 1 - i,
    {
        proof {
            lemma_mul_mono(mi as int, i as int, dn as int);
            lemma_mul_mono(i as int, ma as int, dn as int);
            assert(mi as int * dn as int <= i as int * dn as int <= ma as int * dn as int);
            assert(mag(i as int * dn as int)
                <= 7_000_000_000_000_000_000_000_000_000_000_000_000);
        }
        let a: i128 = n0 + dn * i;
        let b: i128 = n1 + dn * i;
        let s: Segment = if horizontal {
            Segment { x1: fmin_s, y1: a, x2: fmax_s, y2: b, den }
        } else {
            Segment { x1: a, y1: fmin_s, x2: b, y2: fmax_s, den }
        };
        out.push(s);
        assert(s@ == seg_model_at(p, i as int));
        i = i + 1;
    }
    out
}

/// Projects one grid onto a viewport: the finite ordered run of segments of
/// the family that covers the viewport, ascending by line index.
///
/// Succeeds exactly when the grid's spacing is non-zero; a zero spacing is
/// the `InvalidGrid` error.  The viewport itself is validated once per
/// document, by `assemble`.
pub fn project(g: &GridSpec, vp: &Rect) -> (r: Result<Vec<Segment>, GridError>)
    requires
        vp.valid(),
        vp.bounded(),
        g.bounded(),
        g.dir_ok(),
    ensures
        r matches Err(e) ==> e == GridError::InvalidGrid && g.step == 0,
        g.step == 0 ==> (r matches Err(e) && e == GridError::InvalidGrid),
        r matches Ok(v) ==> ({
            let p = proj_model(*g, *vp);
            &&& v@.len() == num_segments(p)
            &&& forall|k: int| 0 <= k < v@.len() ==> v@[k]@ == seg_model_at(p, min_index(p) + k)
        }),
{
    if g.step == 0 {
        return Err(GridError::InvalidGrid);
    }
    proof {
        lemma_mod_bound(g.theta as int, FULL_TURN as int);
    }
    let mr: i64 = match g.theta.checked_rem_euclid(FULL_TURN) {
        Some(v) => v,
        None => 0,
    };
    let flip: bool = mr >= HALF_TURN;
    let tn: i64 = if flip {
        mr - HALF_TURN
    } else {
        mr
    };
    let st: i64 = if flip {
        -g.step
    } else {
        g.step
    };
    assert(tn as int == norm_theta(g.theta as int));
    assert(st as int == eff_step(g.theta as int, g.step as int));
    let e: Trig = match exact_trig(tn) {
        Some(t) => t,
        None => g.trig,
    };
    assert(e == effective_trig(tn as int, g.trig));

    let cp: i128 = g.center_position as i128;
    proof {
        lemma_mag_mul(e.cos as int, st as int, TRIG_ONE as int, COORD_LIMIT as int);
        lemma_mag_mul(e.sin as int, st as int, TRIG_ONE as int, COORD_LIMIT as int);
    }
    let cs: i128 = (e.cos as i128) * (st as i128);
    let sn: i128 = (e.sin as i128) * (st as i128);
    proof {
        lemma_mag_mul(
            cs as int,
            cp as int,
            1_000_000_000_000_000_000int,
            COORD_LIMIT as int,
        );
        lemma_mag_mul(
            sn as int,
            cp as int,
            1_000_000_000_000_000_000int,
            COORD_LIMIT as int,
        );
    }
    let axn: i128 = (g.cx as i128) * SCALE_SQ - cs * cp;
    let ayn: i128 = (g.cy as i128) * SCALE_SQ - sn * cp;
    assert(axn as int == center_x_num(*g));
    assert(ayn as int == center_y_num(*g));
    assert(mag(axn as int) <= CENTER_NUM_LIMIT);
    assert(mag(ayn as int) <= CENTER_NUM_LIMIT);

    let segs: Vec<Segment> = if DEG_45 <= tn && tn < DEG_135 {
        project_branch(
            e.sin,
            e.cos,
            ayn,
            axn,
            vp.min_y,
            vp.max_y,
            vp.min_x,
            vp.max_x,
            st,
            true,
        )
    } else {
        project_branch(
            e.cos,
            e.sin,
            axn,
            ayn,
            vp.min_x,
            vp.max_x,
            vp.min_y,
            vp.max_y,
            st,
            false,
        )
    };
    Ok(segs)
}

/// A half-turn rotation combined with a step-sign flip leaves both the
/// normalized angle and the effective step unchanged.
pub proof fn lemma_angle_symmetry_ints(theta: int, step: int)
    ensures
        norm_theta(theta + HALF_TURN) == norm_theta(theta),
        eff_step(theta + HALF_TURN, -step) == eff_step(theta, step),
{
    let f = FULL_TURN as int;
    let h = HALF_TURN as int;
    let u = theta % f;
    lemma_mod_bound(theta, f);
    lemma_add_mod_noop(theta, h, f);
    lemma_small_mod(h as nat, f as nat);
    if u + h < f {
        lemma_small_mod((u + h) as nat, f as nat);
        assert((theta + h) % f == u + h);
    } else {
        lemma_mod_sub_multiples_vanish(u + h, f);
        lemma_small_mod((u + h - f) as nat, f as nat);
        assert((theta + h) % f == u + h - f);
    }
}

/// Angle symmetry: rotating a grid by a half turn while flipping the sign
/// of its step projects to the identical segment sequence.
pub proof fn lemma_angle_symmetry(g1: GridSpec, g2: GridSpec, vp: Rect)
    requires
        g2.theta as int == g1.theta as int + HALF_TURN,
        g2.step as int == -(g1.step as int),
        g2.cx == g1.cx,
        g2.cy == g1.cy,
        g2.center_position == g1.center_position,
        g2.trig == g1.trig,
    ensures
        project_model(g2, vp) == project_model(g1, vp),
{
    lemma_angle_symmetry_ints(g1.theta as int, g1.step as int);
    assert(norm_theta(g2.theta as int) == norm_theta(g1.theta as int));
    assert(eff_step(g2.theta as int, g2.step as int) == eff_step(
        g1.theta as int,
        g1.step as int,
    ));
    assert(center_x_num(g2) == center_x_num(g1));
    assert(center_y_num(g2) == center_y_num(g1));
    assert(proj_model(g2, vp) == proj_model(g1, vp));
    assert(project_model(g2, vp) =~= project_model(g1, vp));
}

/// Determinism: the projection is a function of the grid and viewport
/// values alone, so equal inputs always emit the identical ordered
/// sequence.
pub proof fn lemma_order_determinism(g1: GridSpec, g2: GridSpec, vp1: Rect, vp2: Rect)
    requires
        g1 == g2,
        vp1 == vp2,
    ensures
        project_model(g1, vp1) == project_model(g2, vp2),
{
}

/// For a valid viewport and a grid with non-zero spacing and an acceptable
/// direction, the resolved projection has a positive denominator, positive
/// spacing, and ordered moving-axis edges.
pub proof fn lemma_proj_model_wf(g: GridSpec, vp: Rect)
    requires
        vp.valid(),
        g.step != 0,
        g.dir_ok(),
    ensures
        ({
            let p = proj_model(g, vp);
            p.den > 0 && p.dn > 0 && p.lo < p.hi
        }),
{
    let p = proj_model(g, vp);
    let tn = norm_theta(g.theta as int);
    let e = effective_trig(tn, g.trig);
    let st = eff_step(g.theta as int, g.step as int);
    assert(st != 0);
    assert(mag(st) >= 1);
    if is_horizontal(tn) {
        assert(p.den == mag(e.sin as int) * SCALE_SQ);
        lemma_mul_strict_inequality(vp.min_y as int, vp.max_y as int, p.den);
    } else {
        assert(p.den == mag(e.cos as int) * SCALE_SQ);
        lemma_mul_strict_inequality(vp.min_x as int, vp.max_x as int, p.den);
    }
}

/// Full coverage: the emitted index range is never empty; the first
/// segment's intercepts lie at or before the viewport's low moving edge on
/// both fixed edges, and the last segment's at or past the high moving
/// edge, so the family of emitted lines brackets the whole viewport.
pub proof fn lemma_full_coverage(p: ProjModel)
    requires
        p.dn > 0,
        p.lo <= p.hi,
    ensures
        min_index(p) <= max_index(p),
        p.n0 + p.dn * min_index(p) <= p.lo,
        p.n1 + p.dn * min_index(p) <= p.lo,
        p.n0 + p.dn * max_index(p) >= p.hi,
        p.n1 + p.dn * max_index(p) >= p.hi,
{
    let dn = p.dn;
    let a = p.lo - vstd::math::max(p.n0, p.n1) - dn;
    let b = p.hi - vstd::math::min(p.n0, p.n1) + dn;
    let mi = min_index(p);
    let ma = max_index(p);
    lemma_tdiv(a, dn);
    lemma_tdiv(b, dn);
    assert(mi * dn <= p.lo - vstd::math::max(p.n0, p.n1));
    assert(ma * dn >= p.hi - vstd::math::min(p.n0, p.n1));
    if mi > ma {
        lemma_mul_mono(ma + 1, mi, dn);
        lemma_mul_is_distributive_add(dn, ma, 1);
        assert(false);
    }
}

/// Full coverage, stated on the emitted sequence itself: a grid with
/// non-zero spacing over a valid viewport always emits at least one
/// segment; the first segment's intercepts lie at or before the viewport's
/// low moving edge on both fixed edges (`p.lo` is that edge scaled by the
/// common denominator), and the last segment's at or past the high moving
/// edge — together with `lemma_segment_spacing`, the emitted lines bracket
/// the whole viewport with no line of the family skipped.
pub proof fn lemma_project_covers(g: GridSpec, vp: Rect)
    requires
        vp.valid(),
        g.step != 0,
        g.dir_ok(),
    ensures
        ({
            let p = proj_model(g, vp);
            let s = project_model(g, vp);
            let first = s[0];
            let last = s[s.len() - 1];
            &&& s.len() >= 1
            &&& if p.horizontal {
                first.y1 <= p.lo && first.y2 <= p.lo && last.y1 >= p.hi && last.y2 >= p.hi
            } else {
                first.x1 <= p.lo && first.x2 <= p.lo && last.x1 >= p.hi && last.x2 >= p.hi
            }
        }),
{
    lemma_proj_model_wf(g, vp);
    let p = proj_model(g, vp);
    lemma_full_coverage(p);
    assert(project_model(g, vp)[0] == seg_model_at(p, min_index(p)));
    assert(project_model(g, vp)[num_segments(p) - 1] == seg_model_at(p, max_index(p)));
}

/// Ordering and spacing: within one grid the emitted sequence ascends by
/// line index, adjacent lines' intercepts differing by exactly the
/// projected spacing `dn` over `den` on both fixed edges.
pub proof fn lemma_segment_spacing(p: ProjModel, i: int)
    ensures
        ({
            let s = seg_model_at(p, i);
            let t = seg_model_at(p, i + 1);
            if p.horizontal {
                t.y1 == s.y1 + p.dn && t.y2 == s.y2 + p.dn && t.x1 == s.x1 && t.x2 == s.x2
            } else {
                t.x1 == s.x1 + p.dn && t.x2 == s.x2 + p.dn && t.y1 == s.y1 && t.y2 == s.y2
            }
        }),
{
    lemma_mul_is_distributive_add(p.dn, i, 1);
}

} // verus!
