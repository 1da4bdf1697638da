//! The execution trace: one row per committee member plus a terminal row,
//! accumulating the keys of the members who took part.
use crate::curve::{aux_point, aux_spec, compose, compose_spec, composable, Point};
use crate::field::{ApkError, P};
use vstd::prelude::*;

verus! {

/// One step of the trace: `(index, selector, member_x, member_y, acc_x, acc_y)`.
#[derive(Clone, Copy, Debug, PartialEq, Eq, Structural)]
pub struct Row {
    pub index: u32,
    pub selector: u32,
    pub member_x: u32,
    pub member_y: u32,
    pub acc_x: u32,
    pub acc_y: u32,
}

impl Row {
    /// Every entry is a canonical field element.
    pub open spec fn wf(self) -> bool {
        self.index < P && self.selector < P && self.member_x < P && self.member_y < P
            && self.acc_x < P && self.acc_y < P
    }

    pub open spec fn member(self) -> Point {
        Point { x: self.member_x, y: self.member_y }
    }

    pub open spec fn acc(self) -> Point {
        Point { x: self.acc_x, y: self.acc_y }
    }
}

/// The three arrays describe a committee: equal lengths, flags in {0, 1},
/// keys made of canonical field elements.
pub open spec fn valid_committee(pk_x: Seq<u32>, pk_y: Seq<u32>, part: Seq<u8>) -> bool {
    &&& pk_x.len() == part.len()
    &&& pk_y.len() == part.len()
    &&& forall|i: int| 0 <= i < part.len() ==> part[i] <= 1 && pk_x[i] < P && pk_y[i] < P
}

/// The public key of member `i`.
pub open spec fn member_spec(pk_x: Seq<u32>, pk_y: Seq<u32>, i: int) -> Point {
    Point { x: pk_x[i], y: pk_y[i] }
}

/// The accumulator after the first `k` members: the auxiliary base point
/// plus the keys of those among them who took part, in order.
pub open spec fn acc_spec(pk_x: Seq<u32>, pk_y: Seq<u32>, part: Seq<u8>, k: nat) -> Point
    decreases k,
{
    if k == 0 {
        aux_spec()
    } else {
        let prev = acc_spec(pk_x, pk_y, part, (k - 1) as nat);
        if part[k - 1] == 1 {
            compose_spec(prev, member_spec(pk_x, pk_y, k - 1))
        } else {
            prev
        }
    }
}

/// No participating member meets a zero denominator.
pub open spec fn steps_defined(pk_x: Seq<u32>, pk_y: Seq<u32>, part: Seq<u8>) -> bool {
    forall|k: int|
        0 <= k < part.len() && part[k] == 1 ==> composable(
            #[trigger] acc_spec(pk_x, pk_y, part, k as nat),
            member_spec(pk_x, pk_y, k),
        )
}

/// Row `i` of the trace: member `i`'s flag and key (zeros on the terminal
/// row `i == N`) and the accumulator after the members before it.
pub open spec fn row_spec(pk_x: Seq<u32>, pk_y: Seq<u32>, part: Seq<u8>, i: nat) -> Row {
    let acc = acc_spec(pk_x, pk_y, part, i);
    let member = i < part.len();
    Row {
        index: i as u32,
        selector: if member { part[i as int] as u32 } else { 0 },
        member_x: if member { pk_x[i as int] } else { 0 },
        member_y: if member { pk_y[i as int] } else { 0 },
        acc_x: acc.x,
        acc_y: acc.y,
    }
}

/// The whole trace: rows `0..=N`.
pub open spec fn trace_spec(pk_x: Seq<u32>, pk_y: Seq<u32>, part: Seq<u8>) -> Seq<Row> {
    Seq::new(part.len() + 1, |i: int| row_spec(pk_x, pk_y, part, i as nat))
}

/// Every accumulator value is a pair of canonical field elements.
pub proof fn lemma_acc_wf(pk_x: Seq<u32>, pk_y: Seq<u32>, part: Seq<u8>, k: nat)
    ensures
        acc_spec(pk_x, pk_y, part, k).wf(),
    decreases k,
{
    if k > 0 {
        lemma_acc_wf(pk_x, pk_y, part, (k - 1) as nat);
    }
}

/// Builds the trace of a committee given as three arrays of equal length:
/// the keys' coordinates and the participation flags.
pub fn generate_apk_trace(pk_x: &[u32], pk_y: &[u32], participated: &[u8]) -> (r: Result<
    Vec<Row>,
    ApkError,
>)
    requires
        participated@.len() < P,
    ensures
        !valid_committee(pk_x@, pk_y@, participated@) <==> r == Err::<Vec<Row>, ApkError>(
            ApkError::InvalidInput,
        ),
        valid_committee(pk_x@, pk_y@, participated@) && !steps_defined(
            pk_x@,
            pk_y@,
            participated@,
        ) <==> r == Err::<Vec<Row>, ApkError>(ApkError::DivisionByZero),
        valid_committee(pk_x@, pk_y@, participated@) && steps_defined(
            pk_x@,
            pk_y@,
            participated@,
        ) <==> r is Ok,
        r matches Ok(t) ==> t@ == trace_spec(pk_x@, pk_y@, participated@),
        r matches Ok(t) ==> t@[0].index == 0 && t@[0].acc() == aux_spec() && (participated@.len()
            > 0 ==> t@[0].selector == participated@[0] as u32 && t@[0].member() == member_spec(
            pk_x@,
            pk_y@,
            0,
        )),
        r matches Ok(t) ==> forall|k: int|
            0 <= k < participated@.len() ==> #[trigger] t@[k + 1].index == t@[k].index + 1,
        r matches Ok(t) ==> forall|k: int|
            0 <= k < participated@.len() ==> (#[trigger] t@[k + 1]).acc() == if participated@[k]
                == 1 {
                compose_spec(t@[k].acc(), member_spec(pk_x@, pk_y@, k))
            } else {
                t@[k].acc()
            },
{
    let n = participated.len();
    if pk_x.len() != n || pk_y.len() != n {
        return Err(ApkError::InvalidInput);
    }
    let mut i: usize = 0;
    while i < n
        invariant
            pk_x@.len() == n,
            pk_y@.len() == n,
            participated@.len() == n,
            i <= n,
            forall|j: int|
                0 <= j < i ==> participated@[j] <= 1 && pk_x@[j] < P && pk_y@[j] < P,
        decreases n - i,
    {
        if participated[i] > 1 || pk_x[i] >= P || pk_y[i] >= P {
            return Err(ApkError::InvalidInput);
        }
        i += 1;
    }
    let ghost (gx, gy, gp) = (pk_x@, pk_y@, participated@);
    let mut rows: Vec<Row> = Vec::new();
    let mut acc = aux_point();
    let mut i: usize = 0;
    while i <= n
        invariant
            valid_committee(gx, gy, gp),
            gx == pk_x@,
            gy == pk_y@,
            gp == participated@,
            gp.len() == n,
            n < P,
            i <= n + 1,
            rows@.len() == i,
            forall|j: int| 0 <= j < i ==> rows@[j] == row_spec(gx, gy, gp, j as nat),
            i <= n ==> acc == acc_spec(gx, gy, gp, i as nat),
            forall|k: int|
                0 <= k < i && k < n && gp[k] == 1 ==> composable(
                    #[trigger] acc_spec(gx, gy, gp, k as nat),
                    member_spec(gx, gy, k),
                ),
        decreases n + 1 - i,
    {
        proof {
            lemma_acc_wf(gx, gy, gp, i as nat);
        }
        let row = if i < n {
            Row {
                index: i as u32,
                selector: participated[i] as u32,
                member_x: pk_x[i],
                member_y: pk_y[i],
                acc_x: acc.x,
                acc_y: acc.y,
            }
        } else {
            Row { index: i as u32, selector: 0, member_x: 0, member_y: 0, acc_x: acc.x, acc_y: acc.y }
        };
        rows.push(row);
        if i < n && participated[i] == 1 {
            match compose(acc, Point { x: pk_x[i], y: pk_y[i] }) {
                Ok(s) => {
                    acc = s;
                },
                Err(e) => {
                    let ghost k = i as int;
                    assert(gp[k] == 1);
                    assert(!composable(acc_spec(gx, gy, gp, k as nat), member_spec(gx, gy, k)));
                    assert(!steps_defined(gx, gy, gp));
                    return Err(e);
                },
            }
        }
        i += 1;
    }
    assert(rows@ =~= trace_spec(gx, gy, gp));
    Ok(rows)
}

} // verus!
