use sire_smt::gen_equality_assertion;
use sire_smt::sir::{DefId, Param, Ty};

fn pair(l: Ty, r: Ty) -> Ty {
    Ty::Tuple(Box::new(l), Box::new(r))
}

#[test]
fn renders_data_sorts() {
    assert_eq!(Ty::Bool.to_smtlib(), "Bool");
    assert_eq!(Ty::Unit.to_smtlib(), "Unit");
    assert_eq!(Ty::Int(8).to_smtlib(), "(_ BitVec 8)");
    assert_eq!(Ty::Uint(16).to_smtlib(), "(_ BitVec 16)");
    assert_eq!(Ty::Int(64).to_smtlib(), "(_ BitVec 64)");
    assert_eq!(pair(Ty::Bool, Ty::Unit).to_smtlib(), "(Tuple Bool Unit)");
    assert_eq!(
        pair(pair(Ty::Int(8), Ty::Bool), Ty::Unit).to_smtlib(),
        "(Tuple (Tuple (_ BitVec 8) Bool) Unit)"
    );
}

#[test]
fn function_type_renders_as_its_result_sort() {
    let f = Ty::Func(vec![Ty::Bool, Ty::Unit], vec![Param(0, Ty::Bool)], Box::new(Ty::Int(32)));
    assert_eq!(f.to_smtlib(), "(_ BitVec 32)");
}

#[test]
fn renders_identifiers_in_decimal() {
    assert_eq!(DefId(0).to_smtlib(), "f0");
    assert_eq!(DefId(7).to_smtlib(), "f7");
    assert_eq!(DefId(1234567890).to_smtlib(), "f1234567890");
}

#[test]
fn rendering_is_idempotent() {
    let t = pair(Ty::Int(8), pair(Ty::Bool, Ty::Unit));
    assert_eq!(t.to_smtlib(), t.to_smtlib());
    let d = DefId(42);
    assert_eq!(d.to_smtlib(), d.to_smtlib());
    let u = pair(Ty::Int(8), pair(Ty::Bool, Ty::Unit));
    assert_eq!(t.to_smtlib(), u.to_smtlib());
}

#[test]
fn quantified_assertion_binds_remaining_arguments_and_parameters() {
    // Three argument types and one parameter: two arguments beyond the
    // first plus one parameter give three bound variables.
    let args = vec![Ty::Bool, Ty::Unit, Ty::Int(8)];
    let ps = vec![Param(0, Ty::Bool)];
    let got = gen_equality_assertion(DefId(1), DefId(2), &args, &ps);
    assert_eq!(
        got,
        "(assert (forall ((x1 Unit) (x2 (_ BitVec 8)) (p0 Bool)) (= (f1 x1 x2 p0) (f2 x1 x2 p0))))"
    );
}

#[test]
fn parameter_variables_are_named_by_parameter_index() {
    let args = vec![Ty::Bool, Ty::Unit];
    let ps = vec![Param(5, Ty::Int(8))];
    let got = gen_equality_assertion(DefId(3), DefId(4), &args, &ps);
    assert_eq!(
        got,
        "(assert (forall ((x1 Unit) (p5 (_ BitVec 8))) (= (f3 x1 p5) (f4 x1 p5))))"
    );
}

#[test]
fn single_argument_no_parameters_gives_direct_equality() {
    let args = vec![Ty::Bool];
    let ps: Vec<Param> = vec![];
    let got = gen_equality_assertion(DefId(1), DefId(2), &args, &ps);
    assert_eq!(got, "(assert (= f1 f2))");
}

#[test]
fn one_quantifiable_variable_still_gives_direct_equality() {
    // One argument beyond the first and no parameters: the count is one,
    // below the quantification threshold.
    let args = vec![Ty::Bool, Ty::Unit];
    let ps: Vec<Param> = vec![];
    let got = gen_equality_assertion(DefId(1), DefId(2), &args, &ps);
    assert_eq!(got, "(assert (= f1 f2))");
}

#[test]
fn empty_argument_sequence_gives_direct_equality() {
    let args: Vec<Ty> = vec![];
    let ps: Vec<Param> = vec![];
    let got = gen_equality_assertion(DefId(8), DefId(9), &args, &ps);
    assert_eq!(got, "(assert (= f8 f9))");
}
