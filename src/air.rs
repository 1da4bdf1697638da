//! The constraint system: boundary and transition predicates over the rows
//! of a trace, evaluated as field residues that must all be zero.
use crate::curve::{
    aux_spec, composable, compose_spec, den_x, den_y, num_x, num_y, uncompose, Point, A_EDWARDS,
    AUX_POINT_X, AUX_POINT_Y,
};
use crate::field::{
    fadd, fe_add, fe_mul, fe_sub, finv, fmul, fsub, invertible, is_fe, lemma_finv, lemma_mul_cancel,
    lemma_sub_zero, ApkError, P,
};
use crate::trace::Row;
use vstd::arithmetic::div_mod::lemma_mul_mod_noop_right;
use vstd::prelude::*;

verus! {

/// The number of columns of a trace.
pub const WIDTH: usize = 6;

/// The constraints for one committee and one claimed aggregate key
/// `(apk_x, apk_y)`, with the committee's data as fixed parameters.
pub struct Plonky3Sum {
    pub apk_x: u32,
    pub apk_y: u32,
    pub pk_x: Vec<u32>,
    pub pk_y: Vec<u32>,
    pub participated: Vec<u8>,
}

/// `s on + (1 - s) off`: `on` where `s` is one, `off` where it is zero.
pub open spec fn gated(s: int, on: int, off: int) -> int {
    fadd(fmul(s, on), fmul(fsub(1, s), off))
}

/// The residues of the transition from `l` to `n`: the selector is a bit,
/// the index grows by one, and each accumulator coordinate either follows
/// the addition law in cross-multiplied form or stays as it was.
pub open spec fn transition_spec(l: Row, n: Row) -> (int, int, int, int) {
    let (x1, y1, x2, y2) = (l.acc_x as int, l.acc_y as int, l.member_x as int, l.member_y as int);
    let s = l.selector as int;
    (
        fmul(s, fsub(1, s)),
        fsub(n.index as int, fadd(l.index as int, 1)),
        gated(s, fsub(fmul(n.acc_x as int, den_x(x1, y1, x2, y2)), num_x(x1, y1, x2, y2)), fsub(n.acc_x as int, x1)),
        gated(s, fsub(fmul(n.acc_y as int, den_y(x1, y1, x2, y2)), num_y(x1, y1, x2, y2)), fsub(n.acc_y as int, y1)),
    )
}

pub open spec fn transition_holds(l: Row, n: Row) -> bool {
    transition_spec(l, n) == (0int, 0int, 0int, 0int)
}

/// The step from `l` to `n` that the transition constraints allow: with
/// selector zero the accumulator stays; with selector one the next
/// accumulator meets the cross-multiplied addition law with `l`'s member.
pub open spec fn step_rel(l: Row, n: Row) -> bool {
    let (x1, y1, x2, y2) = (l.acc_x as int, l.acc_y as int, l.member_x as int, l.member_y as int);
    ||| l.selector == 0 && n.acc() == l.acc()
    ||| l.selector == 1 && fmul(n.acc_x as int, den_x(x1, y1, x2, y2)) == num_x(x1, y1, x2, y2)
        && fmul(n.acc_y as int, den_y(x1, y1, x2, y2)) == num_y(x1, y1, x2, y2)
}

/// A gate on a bit picks one of its two inputs, and a bit passes the
/// booleanity constraint.
proof fn lemma_gated(s: int, on: int, off: int)
    requires
        s == 0 || s == 1,
        is_fe(on),
        is_fe(off),
    ensures
        fmul(s, fsub(1, s)) == 0,
        s == 0 ==> gated(s, on, off) == off,
        s == 1 ==> gated(s, on, off) == on,
{
    let t = fsub(1, s);
    if s == 0 {
        assert(t == 1);
        assert(s * on == 0 && t * off == off && s * t == 0) by (nonlinear_arith)
            requires
                s == 0,
                t == 1,
        ;
    } else {
        assert(t == 0);
        assert(s * on == on && t * off == 0 && s * t == 0) by (nonlinear_arith)
            requires
                s == 1,
                t == 0,
        ;
    }
}

/// An invertible element other than one fails the booleanity constraint.
proof fn lemma_not_bit(s: int)
    requires
        is_fe(s),
        s != 1,
        invertible(s),
    ensures
        fmul(s, fsub(1, s)) != 0,
{
    let t = fsub(1, s);
    let r = finv(s);
    lemma_finv(s);
    assert(t * s == s * t) by (nonlinear_arith);
    lemma_mul_cancel(t, s, r);
    if fmul(s, t) == 0 {
        assert(fmul(0, r) == 0);
        assert(t == 0);
    }
}

/// The transition constraints hold exactly when the index grows by one and
/// the accumulator takes an allowed step. So a row whose selector or key is
/// changed afterwards, in a way that no longer leads to the next row's
/// accumulator, makes a transition constraint non-zero; and so does a
/// selector that is not a bit. This is shown for every selector that is a
/// byte or has a multiplicative inverse, which in this prime field covers
/// every non-zero selector.
pub proof fn lemma_transition_exact(l: Row, n: Row)
    requires
        l.wf(),
        n.wf(),
        l.selector <= 255 || invertible(l.selector as int),
    ensures
        transition_holds(l, n) <==> (step_rel(l, n) && n.index as int == fadd(l.index as int, 1)),
        l.selector > 1 ==> transition_spec(l, n).0 != 0,
{
    let s = l.selector as int;
    let p = P as int;
    lemma_sub_zero(n.index as int, fadd(l.index as int, 1));
    lemma_sub_zero(n.acc_x as int, l.acc_x as int);
    lemma_sub_zero(n.acc_y as int, l.acc_y as int);
    let (x1, y1, x2, y2) = (l.acc_x as int, l.acc_y as int, l.member_x as int, l.member_y as int);
    lemma_sub_zero(fmul(n.acc_x as int, den_x(x1, y1, x2, y2)), num_x(x1, y1, x2, y2));
    lemma_sub_zero(fmul(n.acc_y as int, den_y(x1, y1, x2, y2)), num_y(x1, y1, x2, y2));
    let on_x = fsub(fmul(n.acc_x as int, den_x(x1, y1, x2, y2)), num_x(x1, y1, x2, y2));
    let on_y = fsub(fmul(n.acc_y as int, den_y(x1, y1, x2, y2)), num_y(x1, y1, x2, y2));
    let off_x = fsub(n.acc_x as int, x1);
    let off_y = fsub(n.acc_y as int, y1);
    if s <= 1 {
        lemma_gated(s, on_x, off_x);
        lemma_gated(s, on_y, off_y);
    } else if s > 255 {
        lemma_not_bit(s);
    } else {
        lemma_mul_mod_noop_right(s, 1 - s, p);
        assert(-65100 < s * (1 - s) < 0) by (nonlinear_arith)
            requires
                2 <= s <= 255,
        ;
    }
}

/// The residues of the last row against the target point.
pub open spec fn last_row_spec(target: Point, r: Row) -> (int, int) {
    (fsub(r.acc_x as int, target.x as int), fsub(r.acc_y as int, target.y as int))
}

pub open spec fn last_row_holds(target: Point, r: Row) -> bool {
    last_row_spec(target, r) == (0int, 0int)
}

impl Plonky3Sum {
    /// The claim is made of canonical field elements and the committee has
    /// a first member.
    pub open spec fn wf(&self) -> bool {
        self.apk_x < P && self.apk_y < P && self.participated@.len() > 0
    }

    pub open spec fn claim(&self) -> Point {
        Point { x: self.apk_x, y: self.apk_y }
    }

    /// The point the accumulator must end on.
    pub open spec fn target(&self) -> Point {
        compose_spec(self.claim(), aux_spec())
    }

    /// The residues of the first row: index zero, the first member's flag,
    /// the auxiliary base point.
    pub open spec fn first_row_spec(&self, r: Row) -> (int, int, int, int) {
        (
            r.index as int,
            fsub(r.selector as int, self.participated@[0] as int),
            fsub(r.acc_x as int, AUX_POINT_X as int),
            fsub(r.acc_y as int, AUX_POINT_Y as int),
        )
    }

    pub open spec fn first_row_holds(&self, r: Row) -> bool {
        self.first_row_spec(r) == (0int, 0int, 0int, 0int)
    }

    /// Every constraint holds on the trace `t`.
    pub open spec fn relation_holds(&self, t: Seq<Row>) -> bool {
        &&& t.len() > 0
        &&& self.first_row_holds(t[0])
        &&& forall|k: int| 0 <= k < t.len() - 1 ==> transition_holds(#[trigger] t[k], t[k + 1])
        &&& last_row_holds(self.target(), t[t.len() - 1])
    }

    /// The inputs are well-formed: the parameters, and a non-empty trace of
    /// canonical field elements.
    pub open spec fn input_ok(&self, t: Seq<Row>) -> bool {
        &&& self.wf()
        &&& t.len() > 0
        &&& forall|i: int| 0 <= i < t.len() ==> (#[trigger] t[i]).wf()
    }

    /// The number of columns of the trace.
    pub fn width(&self) -> (r: usize)
        ensures
            r == 6,
    {
        WIDTH
    }

    /// The residues of the first-row constraints on `row`.
    pub fn first_row_residues(&self, row: &Row) -> (r: (u32, u32, u32, u32))
        requires
            self.wf(),
            row.wf(),
        ensures
            (r.0 as int, r.1 as int, r.2 as int, r.3 as int) == self.first_row_spec(*row),
    {
        (
            row.index,
            fe_sub(row.selector, self.participated[0] as u32),
            fe_sub(row.acc_x, AUX_POINT_X),
            fe_sub(row.acc_y, AUX_POINT_Y),
        )
    }

    /// The point the last row's accumulator must equal.
    pub fn last_row_target(&self) -> (r: Result<Point, ApkError>)
        requires
            self.wf(),
        ensures
            composable(self.claim(), aux_spec()) <==> r is Ok,
            !composable(self.claim(), aux_spec()) ==> r == Err::<Point, ApkError>(
                ApkError::DivisionByZero,
            ),
            r matches Ok(s) ==> s == self.target() && s.wf(),
    {
        uncompose(Point { x: self.apk_x, y: self.apk_y })
    }

    /// Evaluates every constraint on `trace`: the first-row constraints on
    /// its first row, the transition constraints on each pair of adjacent
    /// rows and the last-row constraints on its last row.
    pub fn eval(&self, trace: &[Row]) -> (r: Result<(), ApkError>)
        ensures
            !self.input_ok(trace@) <==> r == Err::<(), ApkError>(ApkError::InvalidInput),
            self.input_ok(trace@) && !composable(self.claim(), aux_spec()) <==> r == Err::<
                (),
                ApkError,
            >(ApkError::DivisionByZero),
            self.input_ok(trace@) && composable(self.claim(), aux_spec()) && self.relation_holds(
                trace@,
            ) <==> r == Ok::<(), ApkError>(()),
            self.input_ok(trace@) && composable(self.claim(), aux_spec()) && !self.relation_holds(
                trace@,
            ) <==> r == Err::<(), ApkError>(ApkError::RelationViolated),
    {
        let n = trace.len();
        if self.apk_x >= P || self.apk_y >= P || self.participated.len() == 0 || n == 0 {
            return Err(ApkError::InvalidInput);
        }
        let mut i: usize = 0;
        while i < n
            invariant
                n == trace@.len(),
                i <= n,
                forall|j: int| 0 <= j < i ==> (#[trigger] trace@[j]).wf(),
            decreases n - i,
        {
            let row = &trace[i];
            if row.index >= P || row.selector >= P || row.member_x >= P || row.member_y >= P
                || row.acc_x >= P || row.acc_y >= P {
                assert(!trace@[i as int].wf());
                return Err(ApkError::InvalidInput);
            }
            i += 1;
        }
        let target = match self.last_row_target() {
            Ok(t) => t,
            Err(e) => return Err(e),
        };
        let first = self.first_row_residues(&trace[0]);
        if first.0 != 0 || first.1 != 0 || first.2 != 0 || first.3 != 0 {
            return Err(ApkError::RelationViolated);
        }
        let mut k: usize = 0;
        while k + 1 < n
            invariant
                n == trace@.len(),
                n > 0,
                k < n,
                self.input_ok(trace@),
                composable(self.claim(), aux_spec()),
                target == self.target(),
                target.wf(),
                self.first_row_holds(trace@[0]),
                forall|j: int| 0 <= j < k ==> transition_holds(#[trigger] trace@[j], trace@[j + 1]),
            decreases n - k,
        {
            let t = transition_residues(&trace[k], &trace[k + 1]);
            if t.0 != 0 || t.1 != 0 || t.2 != 0 || t.3 != 0 {
                assert(!transition_holds(trace@[k as int], trace@[k + 1]));
                return Err(ApkError::RelationViolated);
            }
            k += 1;
        }
        let last = last_row_residues(&target, &trace[n - 1]);
        if last.0 != 0 || last.1 != 0 {
            return Err(ApkError::RelationViolated);
        }
        Ok(())
    }
}

/// The residues of the transition constraints from `local` to `next`.
pub fn transition_residues(local: &Row, next: &Row) -> (r: (u32, u32, u32, u32))
    requires
        local.wf(),
        next.wf(),
    ensures
        (r.0 as int, r.1 as int, r.2 as int, r.3 as int) == transition_spec(*local, *next),
{
    let s = local.selector;
    let not_s = fe_sub(1, s);
    let is_bit = fe_mul(s, not_s);
    let index_step = fe_sub(next.index, fe_add(local.index, 1));
    let xy1 = fe_mul(local.acc_x, local.acc_y);
    let yx2 = fe_mul(local.member_y, local.member_x);
    let nx = fe_add(xy1, yx2);
    let dx = fe_add(
        fe_mul(local.acc_y, local.member_y),
        fe_mul(fe_mul(A_EDWARDS, local.acc_x), local.member_x),
    );
    let ny = fe_sub(xy1, yx2);
    let dy = fe_sub(fe_mul(local.acc_x, local.member_y), fe_mul(local.acc_y, local.member_x));
    let acc_x = fe_add(
        fe_mul(s, fe_sub(fe_mul(next.acc_x, dx), nx)),
        fe_mul(not_s, fe_sub(next.acc_x, local.acc_x)),
    );
    let acc_y = fe_add(
        fe_mul(s, fe_sub(fe_mul(next.acc_y, dy), ny)),
        fe_mul(not_s, fe_sub(next.acc_y, local.acc_y)),
    );
    (is_bit, index_step, acc_x, acc_y)
}

/// The residues of the last-row constraints on `row` against `target`.
pub fn last_row_residues(target: &Point, row: &Row) -> (r: (u32, u32))
    requires
        target.wf(),
        row.wf(),
    ensures
        (r.0 as int, r.1 as int) == last_row_spec(*target, *row),
{
    (fe_sub(row.acc_x, target.x), fe_sub(row.acc_y, target.y))
}

} // verus!
