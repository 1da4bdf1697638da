//! What holds between the trace builder and the constraint system.
use crate::air::{last_row_holds, lemma_transition_exact, step_rel, transition_holds, Plonky3Sum};
use crate::curve::{aux_spec, composable, compose_spec, lemma_compose_cross_multiplied};
use crate::field::{fadd, lemma_sub_zero, P};
use crate::trace::{
    acc_spec, lemma_acc_wf, member_spec, row_spec, steps_defined, trace_spec, valid_committee, Row,
};
use vstd::prelude::*;

verus! {

/// The contract of `generate_apk_trace` fixes its outcome (which error, or
/// which trace) through `valid_committee`, `steps_defined` and `trace_spec`
/// of the committee data alone; equal data gives equal values of all three,
/// so two builds on equal data return the same result.
pub proof fn lemma_build_deterministic(
    pk_x: Seq<u32>,
    pk_y: Seq<u32>,
    part: Seq<u8>,
    pk_x2: Seq<u32>,
    pk_y2: Seq<u32>,
    part2: Seq<u8>,
)
    requires
        pk_x == pk_x2,
        pk_y == pk_y2,
        part == part2,
    ensures
        valid_committee(pk_x, pk_y, part) == valid_committee(pk_x2, pk_y2, part2),
        steps_defined(pk_x, pk_y, part) == steps_defined(pk_x2, pk_y2, part2),
        trace_spec(pk_x, pk_y, part) == trace_spec(pk_x2, pk_y2, part2),
{
}

/// Every row of a built trace holds canonical field elements.
proof fn lemma_rows_wf(pk_x: Seq<u32>, pk_y: Seq<u32>, part: Seq<u8>)
    requires
        valid_committee(pk_x, pk_y, part),
        part.len() < P,
    ensures
        forall|i: int| 0 <= i <= part.len() ==> (#[trigger] row_spec(pk_x, pk_y, part, i as nat)).wf(),
{
    assert forall|i: int| 0 <= i <= part.len() implies (#[trigger] row_spec(pk_x, pk_y, part, i as nat)).wf() by {
        lemma_acc_wf(pk_x, pk_y, part, i as nat);
    }
}

/// Each transition of a built trace meets the transition constraints.
proof fn lemma_built_transition(pk_x: Seq<u32>, pk_y: Seq<u32>, part: Seq<u8>, k: int)
    requires
        valid_committee(pk_x, pk_y, part),
        steps_defined(pk_x, pk_y, part),
        part.len() < P,
        0 <= k < part.len(),
    ensures
        transition_holds(row_spec(pk_x, pk_y, part, k as nat), row_spec(pk_x, pk_y, part, (k + 1) as nat)),
{
    let l = row_spec(pk_x, pk_y, part, k as nat);
    let n = row_spec(pk_x, pk_y, part, (k + 1) as nat);
    lemma_rows_wf(pk_x, pk_y, part);
    assert(l.wf() && n.wf());
    let prev = acc_spec(pk_x, pk_y, part, k as nat);
    assert(l.acc() == prev);
    assert(l.member() == member_spec(pk_x, pk_y, k));
    if part[k] == 1 {
        assert(composable(prev, member_spec(pk_x, pk_y, k)));
        assert(n.acc() == compose_spec(prev, member_spec(pk_x, pk_y, k)));
        lemma_compose_cross_multiplied(prev, member_spec(pk_x, pk_y, k), n.acc());
    }
    assert(step_rel(l, n));
    assert(n.index as int == fadd(l.index as int, 1));
    lemma_transition_exact(l, n);
}

/// The trace built from a committee satisfies every constraint
/// of a constraint system over the same flags whose claim is correct, that
/// is whose target is the trace's final accumulator.
pub proof fn lemma_round_trip(pk_x: Seq<u32>, pk_y: Seq<u32>, part: Seq<u8>, air: Plonky3Sum)
    requires
        valid_committee(pk_x, pk_y, part),
        steps_defined(pk_x, pk_y, part),
        part.len() < P,
        air.wf(),
        air.participated@ == part,
        air.target() == acc_spec(pk_x, pk_y, part, part.len()),
    ensures
        air.input_ok(trace_spec(pk_x, pk_y, part)),
        air.relation_holds(trace_spec(pk_x, pk_y, part)),
{
    let t = trace_spec(pk_x, pk_y, part);
    let n = part.len() as int;
    lemma_rows_wf(pk_x, pk_y, part);
    assert forall|i: int| 0 <= i < t.len() implies (#[trigger] t[i]).wf() by {
        assert(t[i] == row_spec(pk_x, pk_y, part, i as nat));
    }
    assert(t[0] == row_spec(pk_x, pk_y, part, 0));
    assert(air.first_row_holds(t[0]));
    assert forall|k: int| 0 <= k < t.len() - 1 implies transition_holds(#[trigger] t[k], t[k + 1]) by {
        assert(t[k] == row_spec(pk_x, pk_y, part, k as nat));
        assert(t[k + 1] == row_spec(pk_x, pk_y, part, (k + 1) as nat));
        lemma_built_transition(pk_x, pk_y, part, k);
    }
    let last = t[n];
    assert(last == row_spec(pk_x, pk_y, part, n as nat));
    assert(last_row_holds(air.target(), last));
}

/// Where the final accumulator of a well-formed trace is
/// not the claim's target, the last-row constraints do not hold, whatever
/// the other rows are.
pub proof fn lemma_claim_mismatch(air: Plonky3Sum, t: Seq<Row>)
    requires
        air.input_ok(t),
        t[t.len() - 1].acc() != air.target(),
    ensures
        !last_row_holds(air.target(), t[t.len() - 1]),
        !air.relation_holds(t),
{
    let r = t[t.len() - 1];
    assert(r.wf());
    lemma_sub_zero(r.acc_x as int, air.target().x as int);
    lemma_sub_zero(r.acc_y as int, air.target().y as int);
}

/// The accumulator stays at the auxiliary base point where no member takes part.
proof fn lemma_acc_stays(pk_x: Seq<u32>, pk_y: Seq<u32>, part: Seq<u8>, k: nat)
    requires
        k <= part.len(),
        forall|i: int| 0 <= i < part.len() ==> part[i] == 0,
    ensures
        acc_spec(pk_x, pk_y, part, k) == aux_spec(),
    decreases k,
{
    if k > 0 {
        lemma_acc_stays(pk_x, pk_y, part, (k - 1) as nat);
    }
}

/// Where no member takes part, every row of the trace holds the auxiliary base
/// point, and the last-row constraints hold exactly when the claim's
/// target is the auxiliary base point itself.
pub proof fn lemma_no_participation(pk_x: Seq<u32>, pk_y: Seq<u32>, part: Seq<u8>, air: Plonky3Sum)
    requires
        forall|i: int| 0 <= i < part.len() ==> part[i] == 0,
    ensures
        forall|i: int|
            0 <= i <= part.len() ==> (#[trigger] trace_spec(pk_x, pk_y, part)[i]).acc() == aux_spec(),
        last_row_holds(air.target(), trace_spec(pk_x, pk_y, part)[part.len() as int]) <==> air.target()
            == aux_spec(),
{
    let t = trace_spec(pk_x, pk_y, part);
    assert forall|i: int| 0 <= i <= part.len() implies (#[trigger] t[i]).acc() == aux_spec() by {
        lemma_acc_stays(pk_x, pk_y, part, i as nat);
    }
    let target = air.target();
    assert(target.wf());
    lemma_sub_zero(aux_spec().x as int, target.x as int);
    lemma_sub_zero(aux_spec().y as int, target.y as int);
}

} // verus!
