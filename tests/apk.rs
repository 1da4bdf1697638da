use apk_air::air::{last_row_residues, transition_residues, Plonky3Sum};
use apk_air::curve::{aux_point, compose, uncompose, Point, AUX_POINT_X, AUX_POINT_Y};
use apk_air::field::{fe_div, ApkError, P};
use apk_air::trace::{generate_apk_trace, Row};

const PK_X: [u32; 7] = [1452990225, 1415979279, 2387338, 761104766, 346876432, 1452990225, 1415979279];
const PK_Y: [u32; 7] = [221038753, 1396649897, 1532407746, 8593518, 1281517386, 221038753, 1396649897];
const PARTICIPATED: [u8; 7] = [1, 0, 1, 1, 0, 0, 0];
const APK_X: u32 = 2105811123;
const APK_Y: u32 = 1146185955;

fn example_air(apk_x: u32, apk_y: u32) -> Plonky3Sum {
    Plonky3Sum {
        apk_x,
        apk_y,
        pk_x: PK_X.to_vec(),
        pk_y: PK_Y.to_vec(),
        participated: PARTICIPATED.to_vec(),
    }
}

fn example_trace() -> Vec<Row> {
    generate_apk_trace(&PK_X, &PK_Y, &PARTICIPATED).unwrap()
}

#[test]
fn example_vector_passes_every_constraint() {
    let trace = example_trace();
    assert_eq!(trace.len(), 8);
    let last = trace[7];
    assert_eq!((last.acc_x, last.acc_y), (1887249322, 1086447315));
    let target = example_air(APK_X, APK_Y).last_row_target().unwrap();
    assert_eq!(target, Point { x: 1887249322, y: 1086447315 });
    assert_eq!(example_air(APK_X, APK_Y).eval(&trace), Ok(()));
}

#[test]
fn example_vector_accumulator_per_row() {
    let trace = example_trace();
    let expected = [
        (310816354, 2077510353),
        (1217658547, 62813588),
        (1217658547, 62813588),
        (1375945798, 1849447745),
        (1887249322, 1086447315),
        (1887249322, 1086447315),
        (1887249322, 1086447315),
        (1887249322, 1086447315),
    ];
    for (row, acc) in trace.iter().zip(expected.iter()) {
        assert_eq!((row.acc_x, row.acc_y), *acc);
    }
}

#[test]
fn build_is_deterministic() {
    assert_eq!(example_trace(), example_trace());
}

#[test]
fn first_row_boundary() {
    let trace = example_trace();
    assert_eq!(
        trace[0],
        Row { index: 0, selector: 1, member_x: PK_X[0], member_y: PK_Y[0], acc_x: AUX_POINT_X, acc_y: AUX_POINT_Y }
    );
}

#[test]
fn terminal_row_is_zero_filled() {
    let last = example_trace()[7];
    assert_eq!((last.index, last.selector, last.member_x, last.member_y), (7, 0, 0, 0));
}

#[test]
fn index_grows_by_one() {
    let trace = example_trace();
    for k in 0..7 {
        assert_eq!(trace[k + 1].index, trace[k].index + 1);
    }
}

#[test]
fn selector_gates_the_accumulator() {
    let trace = example_trace();
    for k in 0..7 {
        let acc = Point { x: trace[k].acc_x, y: trace[k].acc_y };
        let next = Point { x: trace[k + 1].acc_x, y: trace[k + 1].acc_y };
        if PARTICIPATED[k] == 1 {
            assert_eq!(compose(acc, Point { x: PK_X[k], y: PK_Y[k] }), Ok(next));
        } else {
            assert_eq!(next, acc);
        }
    }
}

#[test]
fn flipped_selector_is_rejected() {
    let mut trace = example_trace();
    trace[1].selector = 1;
    assert_eq!(example_air(APK_X, APK_Y).eval(&trace), Err(ApkError::RelationViolated));
    let mut trace = example_trace();
    trace[2].selector = 0;
    let r = transition_residues(&trace[2], &trace[3]);
    assert!(r.2 != 0 || r.3 != 0);
    assert_eq!(example_air(APK_X, APK_Y).eval(&trace), Err(ApkError::RelationViolated));
}

#[test]
fn non_bit_selector_is_rejected() {
    let mut trace = example_trace();
    trace[4].selector = 2;
    let r = transition_residues(&trace[4], &trace[5]);
    assert_ne!(r.0, 0);
    assert_eq!(example_air(APK_X, APK_Y).eval(&trace), Err(ApkError::RelationViolated));
}

#[test]
fn perturbed_key_is_rejected() {
    let mut trace = example_trace();
    trace[3].member_x += 1;
    assert_eq!(example_air(APK_X, APK_Y).eval(&trace), Err(ApkError::RelationViolated));
    let mut trace = example_trace();
    trace[0].member_y += 1;
    assert_eq!(example_air(APK_X, APK_Y).eval(&trace), Err(ApkError::RelationViolated));
}

#[test]
fn valid_transitions_have_zero_residues() {
    let trace = example_trace();
    for k in 0..7 {
        assert_eq!(transition_residues(&trace[k], &trace[k + 1]), (0, 0, 0, 0));
    }
}

#[test]
fn wrong_claim_is_rejected() {
    let trace = example_trace();
    let air = example_air(APK_X, APK_Y + 1);
    let target = air.last_row_target().unwrap();
    assert_ne!(last_row_residues(&target, &trace[7]), (0, 0));
    assert_eq!(air.eval(&trace), Err(ApkError::RelationViolated));
}

#[test]
fn no_participation_stays_at_aux_point() {
    let none = [0u8; 7];
    let trace = generate_apk_trace(&PK_X, &PK_Y, &none).unwrap();
    for row in trace.iter() {
        assert_eq!((row.acc_x, row.acc_y), (AUX_POINT_X, AUX_POINT_Y));
    }
    let identity = Plonky3Sum { apk_x: 0, apk_y: 1, pk_x: PK_X.to_vec(), pk_y: PK_Y.to_vec(), participated: none.to_vec() };
    assert_eq!(identity.eval(&trace), Ok(()));
    let other = Plonky3Sum { apk_x: APK_X, apk_y: APK_Y, pk_x: PK_X.to_vec(), pk_y: PK_Y.to_vec(), participated: none.to_vec() };
    assert_eq!(other.eval(&trace), Err(ApkError::RelationViolated));
}

#[test]
fn empty_committee_has_one_row() {
    let trace = generate_apk_trace(&[], &[], &[]).unwrap();
    assert_eq!(trace, vec![Row { index: 0, selector: 0, member_x: 0, member_y: 0, acc_x: AUX_POINT_X, acc_y: AUX_POINT_Y }]);
}

#[test]
fn bad_flag_is_invalid_input() {
    let mut part = PARTICIPATED;
    part[5] = 2;
    assert_eq!(generate_apk_trace(&PK_X, &PK_Y, &part), Err(ApkError::InvalidInput));
}

#[test]
fn mismatched_lengths_are_invalid_input() {
    assert_eq!(generate_apk_trace(&PK_X[..6], &PK_Y, &PARTICIPATED), Err(ApkError::InvalidInput));
    assert_eq!(generate_apk_trace(&PK_X, &PK_Y[..5], &PARTICIPATED), Err(ApkError::InvalidInput));
}

#[test]
fn non_canonical_key_is_invalid_input() {
    let mut pk_x = PK_X;
    pk_x[6] = P;
    assert_eq!(generate_apk_trace(&pk_x, &PK_Y, &PARTICIPATED), Err(ApkError::InvalidInput));
}

#[test]
fn zero_denominator_in_build_is_division_by_zero() {
    let mut pk_x = PK_X;
    let mut pk_y = PK_Y;
    pk_x[2] = 0;
    pk_y[2] = 0;
    assert_eq!(generate_apk_trace(&pk_x, &pk_y, &PARTICIPATED), Err(ApkError::DivisionByZero));
    // the same key on a member who does not take part is never composed
    let mut part = PARTICIPATED;
    part[2] = 0;
    assert!(generate_apk_trace(&pk_x, &pk_y, &part).is_ok());
}

#[test]
fn degenerate_claim_is_division_by_zero() {
    let trace = example_trace();
    let air = example_air(0, 0);
    assert_eq!(air.last_row_target(), Err(ApkError::DivisionByZero));
    assert_eq!(air.eval(&trace), Err(ApkError::DivisionByZero));
}

#[test]
fn malformed_eval_inputs_are_invalid_input() {
    let air = example_air(APK_X, APK_Y);
    assert_eq!(air.eval(&[]), Err(ApkError::InvalidInput));
    let mut trace = example_trace();
    trace[3].acc_y = P;
    assert_eq!(air.eval(&trace), Err(ApkError::InvalidInput));
    assert_eq!(example_air(P, APK_Y).eval(&example_trace()), Err(ApkError::InvalidInput));
    let empty = Plonky3Sum { apk_x: APK_X, apk_y: APK_Y, pk_x: vec![], pk_y: vec![], participated: vec![] };
    assert_eq!(empty.eval(&example_trace()), Err(ApkError::InvalidInput));
}

#[test]
fn first_row_flag_must_match() {
    let trace = example_trace();
    let mut air = example_air(APK_X, APK_Y);
    air.participated[0] = 0;
    assert_eq!(air.first_row_residues(&trace[0]), (0, 1, 0, 0));
    assert_eq!(air.eval(&trace), Err(ApkError::RelationViolated));
}

#[test]
fn compose_exact_values() {
    assert_eq!(compose(Point { x: 1, y: 2 }, Point { x: 3, y: 4 }), Ok(Point { x: 1288490191, y: 5 }));
    assert_eq!(
        compose(aux_point(), Point { x: PK_X[0], y: PK_Y[0] }),
        Ok(Point { x: 1217658547, y: 62813588 })
    );
    assert_eq!(compose(Point { x: 0, y: 0 }, Point { x: 3, y: 4 }), Err(ApkError::DivisionByZero));
}

#[test]
fn uncompose_of_identity_is_aux_point() {
    assert_eq!(uncompose(Point { x: 0, y: 1 }), Ok(aux_point()));
}

#[test]
fn field_division() {
    assert_eq!(fe_div(6, 3), Ok(2));
    assert_eq!(fe_div(1, 2), Ok(1073741824));
    assert_eq!(fe_div(5, 0), Err(ApkError::DivisionByZero));
}

#[test]
fn width_is_six() {
    assert_eq!(example_air(APK_X, APK_Y).width(), 6);
}

#[test]
fn absent_member_key_does_not_change_accumulators() {
    let trace = example_trace();
    let mut pk_x = PK_X;
    let mut pk_y = PK_Y;
    pk_x[1] = 5;
    pk_y[1] = 9;
    let other = generate_apk_trace(&pk_x, &pk_y, &PARTICIPATED).unwrap();
    assert_eq!(other.len(), trace.len());
    for k in 0..8 {
        assert_eq!((other[k].acc_x, other[k].acc_y), (trace[k].acc_x, trace[k].acc_y));
        if k != 1 {
            assert_eq!(other[k], trace[k]);
        }
    }
    assert_eq!((other[1].member_x, other[1].member_y), (5, 9));
}
