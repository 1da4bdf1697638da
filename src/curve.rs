//! The curve's point-composition law, in the division-free form "numerator
//! over denominator" shared by the accumulator and the constraints.
use crate::field::{
    fadd, fdiv, fe_add, fe_div, fe_mul, fe_sub, finv, fmul, fsub, invertible, lemma_finv, lemma_mul_cancel,
    ApkError, P,
};
use vstd::prelude::*;

verus! {

/// The curve parameter `a`: minus one in the field.
pub const A_EDWARDS: u32 = 2147483646;

/// The auxiliary base point the accumulation starts from.
pub const AUX_POINT_X: u32 = 310816354;
pub const AUX_POINT_Y: u32 = 2077510353;

/// A point given by two field elements.
#[derive(Clone, Copy, Debug, PartialEq, Eq, Structural)]
pub struct Point {
    pub x: u32,
    pub y: u32,
}

impl Point {
    pub open spec fn wf(self) -> bool {
        self.x < P && self.y < P
    }
}

pub open spec fn aux_spec() -> Point {
    Point { x: AUX_POINT_X, y: AUX_POINT_Y }
}

/// Numerator of the x coordinate of `(x1, y1) + (x2, y2)`: `x1 y1 + y2 x2`.
pub open spec fn num_x(x1: int, y1: int, x2: int, y2: int) -> int {
    fadd(fmul(x1, y1), fmul(y2, x2))
}

/// Denominator of the x coordinate: `y1 y2 + a x1 x2`.
pub open spec fn den_x(x1: int, y1: int, x2: int, y2: int) -> int {
    fadd(fmul(y1, y2), fmul(fmul(A_EDWARDS as int, x1), x2))
}

/// Numerator of the y coordinate: `x1 y1 - y2 x2`.
pub open spec fn num_y(x1: int, y1: int, x2: int, y2: int) -> int {
    fsub(fmul(x1, y1), fmul(y2, x2))
}

/// Denominator of the y coordinate: `x1 y2 - y1 x2`.
pub open spec fn den_y(x1: int, y1: int, x2: int, y2: int) -> int {
    fsub(fmul(x1, y2), fmul(y1, x2))
}

/// Both denominators of `p + q` are invertible, that is non-zero.
pub open spec fn composable(p: Point, q: Point) -> bool {
    invertible(den_x(p.x as int, p.y as int, q.x as int, q.y as int))
        && invertible(den_y(p.x as int, p.y as int, q.x as int, q.y as int))
}

/// `p + q` under the addition law; meaningful where `composable(p, q)`.
pub open spec fn compose_spec(p: Point, q: Point) -> Point {
    let (x1, y1, x2, y2) = (p.x as int, p.y as int, q.x as int, q.y as int);
    Point {
        x: fdiv(num_x(x1, y1, x2, y2), den_x(x1, y1, x2, y2)) as u32,
        y: fdiv(num_y(x1, y1, x2, y2), den_y(x1, y1, x2, y2)) as u32,
    }
}

/// Where `p + q` is defined, it is the one point of canonical elements that
/// meets the cross-multiplied equations `x den_x == num_x`, `y den_y == num_y`.
pub proof fn lemma_compose_cross_multiplied(p: Point, q: Point, r: Point)
    requires
        r.wf(),
        composable(p, q),
    ensures
        r == compose_spec(p, q) <==> (fmul(r.x as int, den_x(p.x as int, p.y as int, q.x as int, q.y as int))
            == num_x(p.x as int, p.y as int, q.x as int, q.y as int) && fmul(
            r.y as int,
            den_y(p.x as int, p.y as int, q.x as int, q.y as int),
        ) == num_y(p.x as int, p.y as int, q.x as int, q.y as int)),
{
    let (x1, y1, x2, y2) = (p.x as int, p.y as int, q.x as int, q.y as int);
    let (nx, dx, ny, dy) = (num_x(x1, y1, x2, y2), den_x(x1, y1, x2, y2), num_y(x1, y1, x2, y2), den_y(x1, y1, x2, y2));
    lemma_finv(dx);
    lemma_finv(dy);
    let c = compose_spec(p, q);
    assert(c.x as int == fmul(nx, finv(dx)));
    assert(c.y as int == fmul(ny, finv(dy)));
    lemma_mul_cancel(nx, finv(dx), dx);
    lemma_mul_cancel(ny, finv(dy), dy);
    lemma_mul_cancel(r.x as int, dx, finv(dx));
    lemma_mul_cancel(r.y as int, dy, finv(dy));
}

/// The auxiliary base point.
pub fn aux_point() -> (r: Point)
    ensures
        r == aux_spec(),
{
    Point { x: AUX_POINT_X, y: AUX_POINT_Y }
}

/// `p + q` under the curve's addition law, failing where a denominator is zero.
pub fn compose(p: Point, q: Point) -> (r: Result<Point, ApkError>)
    requires
        p.wf(),
        q.wf(),
    ensures
        composable(p, q) <==> r is Ok,
        !composable(p, q) ==> r == Err::<Point, ApkError>(ApkError::DivisionByZero),
        r matches Ok(s) ==> s == compose_spec(p, q) && s.wf(),
{
    let xy1 = fe_mul(p.x, p.y);
    let yx2 = fe_mul(q.y, q.x);
    let nx = fe_add(xy1, yx2);
    let dx = fe_add(fe_mul(p.y, q.y), fe_mul(fe_mul(A_EDWARDS, p.x), q.x));
    let ny = fe_sub(xy1, yx2);
    let dy = fe_sub(fe_mul(p.x, q.y), fe_mul(p.y, q.x));
    let x = match fe_div(nx, dx) {
        Ok(v) => v,
        Err(e) => return Err(e),
    };
    let y = match fe_div(ny, dy) {
        Ok(v) => v,
        Err(e) => return Err(e),
    };
    Ok(Point { x, y })
}

/// The value the accumulator must end on for `claim` to hold: the same
/// addition law applied to the claim and the auxiliary base point.
pub fn uncompose(claim: Point) -> (r: Result<Point, ApkError>)
    requires
        claim.wf(),
    ensures
        composable(claim, aux_spec()) <==> r is Ok,
        !composable(claim, aux_spec()) ==> r == Err::<Point, ApkError>(ApkError::DivisionByZero),
        r matches Ok(s) ==> s == compose_spec(claim, aux_spec()) && s.wf(),
{
    compose(claim, aux_point())
}

} // verus!
