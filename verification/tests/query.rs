use sire_smt::sir::{Body, DefId, FuncDef, Param, Ty};
use sire_smt::{compose_equality_query, CheckResult};

fn pair(l: Ty, r: Ty) -> Ty {
    Ty::Tuple(Box::new(l), Box::new(r))
}

fn def(id: u64, ty: Ty, instances: Vec<Ty>) -> FuncDef {
    FuncDef { def_id: DefId(id), ty, body: Body { datatype_instances: instances } }
}

#[test]
fn differing_argument_types_answer_unsat_with_no_query() {
    let a = def(1, Ty::Func(vec![Ty::Bool], vec![], Box::new(Ty::Bool)), vec![]);
    let b = def(2, Ty::Func(vec![Ty::Unit], vec![], Box::new(Ty::Bool)), vec![]);
    // No program text exists, so no solver can be handed anything.
    assert_eq!(compose_equality_query(&a, &b), Err(CheckResult::Unsat));
}

#[test]
fn differing_parameter_lists_answer_unsat_with_no_query() {
    let a = def(
        1,
        Ty::Func(vec![Ty::Bool], vec![Param(0, Ty::Bool)], Box::new(Ty::Bool)),
        vec![],
    );
    let b = def(
        2,
        Ty::Func(vec![Ty::Bool], vec![Param(1, Ty::Bool)], Box::new(Ty::Bool)),
        vec![],
    );
    assert_eq!(compose_equality_query(&a, &b), Err(CheckResult::Unsat));
}

#[test]
fn parameter_order_is_meaningful() {
    let a = def(
        1,
        Ty::Func(
            vec![Ty::Bool],
            vec![Param(0, Ty::Bool), Param(1, Ty::Unit)],
            Box::new(Ty::Bool),
        ),
        vec![],
    );
    let b = def(
        2,
        Ty::Func(
            vec![Ty::Bool],
            vec![Param(1, Ty::Unit), Param(0, Ty::Bool)],
            Box::new(Ty::Bool),
        ),
        vec![],
    );
    assert_eq!(compose_equality_query(&a, &b), Err(CheckResult::Unsat));
}

#[test]
fn non_function_signatures_answer_unsat_with_no_query() {
    let a = def(1, Ty::Bool, vec![]);
    let b = def(2, Ty::Bool, vec![]);
    assert_eq!(compose_equality_query(&a, &b), Err(CheckResult::Unsat));
}

#[test]
fn merges_instances_first_seen_without_duplicates() {
    // Function A yields [T1, T2], function B yields [T2, T3]: the emitted
    // hint lines are [T1, T2, T3], one declaration per instance.
    let t1 = || Ty::Int(8);
    let t2 = || pair(Ty::Bool, Ty::Unit);
    let t3 = || Ty::Uint(16);
    let sig = || Ty::Func(vec![Ty::Bool], vec![], Box::new(Ty::Bool));
    let a = def(1, sig(), vec![t1(), t2()]);
    let b = def(2, sig(), vec![t2(), t3()]);
    let got = compose_equality_query(&a, &b).unwrap();
    let expected = [
        "(declare-datatypes (T1 T2) ((Tuple (tuple (first T1) (second T2)))))",
        "(declare-datatypes () ((Unit (unit))))",
        "(declare-const _ (_ BitVec 8))",
        "(declare-const _ (Tuple Bool Unit))",
        "(declare-const _ (_ BitVec 16))",
        "(declare-fun f1 (Bool) Bool)",
        "(declare-fun f2 (Bool) Bool)",
        "(assert (= f1 f2))",
        "(check-sat)",
    ]
    .join("\n");
    assert_eq!(got, expected);
}

#[test]
fn deduplication_is_structural_not_textual() {
    // A signed and an unsigned integer of the same width render to the same
    // sort text but are distinct shapes: both hints are emitted.
    let sig = || Ty::Func(vec![Ty::Bool], vec![], Box::new(Ty::Bool));
    let a = def(1, sig(), vec![Ty::Int(8)]);
    let b = def(2, sig(), vec![Ty::Uint(8)]);
    let got = compose_equality_query(&a, &b).unwrap();
    let expected = [
        "(declare-datatypes (T1 T2) ((Tuple (tuple (first T1) (second T2)))))",
        "(declare-datatypes () ((Unit (unit))))",
        "(declare-const _ (_ BitVec 8))",
        "(declare-const _ (_ BitVec 8))",
        "(declare-fun f1 (Bool) Bool)",
        "(declare-fun f2 (Bool) Bool)",
        "(assert (= f1 f2))",
        "(check-sat)",
    ]
    .join("\n");
    assert_eq!(got, expected);
}

#[test]
fn identical_definitions_assert_equality_over_the_same_variables() {
    let sig = || {
        Ty::Func(
            vec![Ty::Bool, Ty::Unit],
            vec![Param(3, Ty::Int(8))],
            Box::new(Ty::Bool),
        )
    };
    let inst = || pair(Ty::Bool, Ty::Unit);
    let a = def(1, sig(), vec![inst()]);
    let b = def(2, sig(), vec![inst()]);
    let got = compose_equality_query(&a, &b).unwrap();
    let expected = [
        "(declare-datatypes (T1 T2) ((Tuple (tuple (first T1) (second T2)))))",
        "(declare-datatypes () ((Unit (unit))))",
        "(declare-const _ (Tuple Bool Unit))",
        "(declare-fun f1 (Bool Unit (_ BitVec 8)) Bool)",
        "(declare-fun f2 (Bool Unit (_ BitVec 8)) Bool)",
        "(assert (forall ((x1 Unit) (p3 (_ BitVec 8))) (= (f1 x1 p3) (f2 x1 p3))))",
        "(check-sat)",
    ]
    .join("\n");
    assert_eq!(got, expected);
    // The assertion is of positive equality, so a prover that answers the
    // satisfiable verdict confirms the asserted equality can hold.
    assert_eq!(CheckResult::from_string("sat\n".to_string()), CheckResult::Sat);
    assert_eq!(CheckResult::from_string("unsat\n".to_string()), CheckResult::Unsat);
}

#[test]
fn zero_instances_and_empty_domain_compose_a_well_formed_program() {
    let sig = || Ty::Func(vec![], vec![], Box::new(Ty::Unit));
    let a = def(1, sig(), vec![]);
    let b = def(2, sig(), vec![]);
    let got = compose_equality_query(&a, &b).unwrap();
    let expected = [
        "(declare-datatypes (T1 T2) ((Tuple (tuple (first T1) (second T2)))))",
        "(declare-datatypes () ((Unit (unit))))",
        "(declare-fun f1 () Unit)",
        "(declare-fun f2 () Unit)",
        "(assert (= f1 f2))",
        "(check-sat)",
    ]
    .join("\n");
    assert_eq!(got, expected);
}

#[test]
fn composing_twice_gives_byte_identical_programs() {
    let sig = || Ty::Func(vec![Ty::Bool, Ty::Int(8)], vec![], Box::new(Ty::Bool));
    let a = def(1, sig(), vec![Ty::Int(8)]);
    let b = def(2, sig(), vec![pair(Ty::Unit, Ty::Unit)]);
    let first = compose_equality_query(&a, &b).unwrap();
    let second = compose_equality_query(&a, &b).unwrap();
    assert_eq!(first, second);
}
