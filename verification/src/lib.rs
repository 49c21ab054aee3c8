//! Decides whether two function definitions of a typed intermediate
//! representation are semantically equivalent, by encoding the question as a
//! satisfiability query in solver-language text and classifying the external
//! prover's verdict.
//!
//! The encoding is the point: the composed program declares the generic pair
//! and unit shapes, forces one monomorphization per datatype instance either
//! body depends on (merged across both bodies, first seen first, without
//! duplicates), declares both functions, asserts their equality, and asks
//! for a verdict. Every line of that text is pinned, character for
//! character, by the spec functions of this crate. The one blocking step —
//! handing the text to the prover and reading its answer — is the caller's;
//! this library composes the text and classifies the raw verdict.

pub mod sir;
pub mod smtlib;
pub mod text;

use vstd::prelude::*;
use vstd::string::StringExecFns;

use crate::sir::{
    lemma_params, lemma_tys, params, tys, DefId, FuncDef, FuncDefV, Param, ParamV, Ty, TyV,
};
use crate::smtlib::{def_id_smt, func_decl_smt, instance_decl, instance_decl_smt, ty_smt};
use crate::text::{dec_rep, dec_string, join_parts, join_with};

verus! {

/// The verdict classes a satisfiability query can come back with: the three
/// canonical one-line prover verdicts, and `Unknown` carrying any other
/// output untouched, for diagnosis.
#[derive(Debug, PartialEq, Eq)]
pub enum CheckResult {
    Sat,
    Unsat,
    Undecided,
    Unknown(String),
}

/// Maps raw prover output to its verdict class: exact match on the three
/// canonical newline-terminated verdicts, no trimming; anything else is
/// `Unknown` with the original text.
pub open spec fn classify(s: String) -> CheckResult {
    if s@ == "sat\n"@ {
        CheckResult::Sat
    } else if s@ == "unsat\n"@ {
        CheckResult::Unsat
    } else if s@ == "unknown\n"@ {
        CheckResult::Undecided
    } else {
        CheckResult::Unknown(s)
    }
}

impl CheckResult {
    /// Classifies raw prover output.
    pub fn from_string(s: String) -> (r: Self)
        ensures
            r == classify(s),
    {
        if s == String::from_str("sat\n") {
            CheckResult::Sat
        } else if s == String::from_str("unsat\n") {
            CheckResult::Unsat
        } else if s == String::from_str("unknown\n") {
            CheckResult::Undecided
        } else {
            CheckResult::Unknown(s)
        }
    }
}

/// How many variables the equality assertion quantifies over: one per
/// argument-type entry beyond the first, one per parameter. The first
/// argument-type entry is always left out of the quantified and applied
/// variable set; this exclusion is preserved observed behaviour of the
/// encoding, not to be reinterpreted.
pub open spec fn quant_count(args: Seq<TyV>, ps: Seq<ParamV>) -> int {
    (if args.len() > 0 {
        args.len() - 1
    } else {
        0
    }) + ps.len()
}

/// The binders of the quantified variables for the arguments beyond the
/// first: each argument's positional name paired with its sort.
pub open spec fn arg_binder_parts(args: Seq<TyV>) -> Seq<Seq<char>> {
    Seq::new(
        (if args.len() > 0 {
            (args.len() - 1) as nat
        } else {
            0nat
        }),
        |k: int| "(x"@ + dec_rep((k + 1) as nat) + " "@ + ty_smt(args[k + 1]) + ")"@,
    )
}

/// The applied variable names for the arguments beyond the first.
pub open spec fn arg_var_parts(args: Seq<TyV>) -> Seq<Seq<char>> {
    Seq::new(
        (if args.len() > 0 {
            (args.len() - 1) as nat
        } else {
            0nat
        }),
        |k: int| "x"@ + dec_rep((k + 1) as nat),
    )
}

/// The binders of the quantified variables for the parameters, in list
/// order, each named by its parameter index.
pub open spec fn param_binder_parts(ps: Seq<ParamV>) -> Seq<Seq<char>> {
    Seq::new(ps.len(), |k: int| "(p"@ + dec_rep(ps[k].index) + " "@ + ty_smt(ps[k].ty) + ")"@)
}

/// The applied variable names for the parameters.
pub open spec fn param_var_parts(ps: Seq<ParamV>) -> Seq<Seq<char>> {
    Seq::new(ps.len(), |k: int| "p"@ + dec_rep(ps[k].index))
}

/// The equality assertion for two function identifiers sharing one argument
/// shape. With more than one quantifiable variable it universally
/// quantifies and applies both functions to the same variable list, in the
/// same order on both sides; otherwise it asserts direct equality of the
/// two identifiers, with no applied arguments and no quantifier.
pub open spec fn equality_assertion_smt(
    a: DefId,
    b: DefId,
    args: Seq<TyV>,
    ps: Seq<ParamV>,
) -> Seq<char> {
    if quant_count(args, ps) > 1 {
        let binders = join_with(arg_binder_parts(args) + param_binder_parts(ps), ' ');
        let vars = join_with(arg_var_parts(args) + param_var_parts(ps), ' ');
        "(assert (forall ("@ + binders + ") (= ("@ + def_id_smt(a) + " "@ + vars + ") ("@
            + def_id_smt(b) + " "@ + vars + "))))"@
    } else {
        "(assert (= "@ + def_id_smt(a) + " "@ + def_id_smt(b) + "))"@
    }
}

/// The assertion binds exactly one variable per argument beyond the first
/// and one per parameter, and applies both functions to that same list.
pub proof fn lemma_assertion_binder_count(args: Seq<TyV>, ps: Seq<ParamV>)
    ensures
        arg_binder_parts(args).len() + param_binder_parts(ps).len() == quant_count(args, ps),
        arg_var_parts(args).len() + param_var_parts(ps).len() == quant_count(args, ps),
{
}

/// An equality of the two functions applied to one variable list: whatever
/// `vars` holds, both sides apply their function to that same text.
pub open spec fn applied_equality(a: DefId, b: DefId, vars: Seq<char>) -> Seq<char> {
    "(= ("@ + def_id_smt(a) + " "@ + vars + ") ("@ + def_id_smt(b) + " "@ + vars + "))"@
}

/// In the quantified form, the asserted equality is variable-for-variable:
/// it is `applied_equality` at the rendered variable list, so both
/// functions are applied to the identical variables in the identical order.
pub proof fn lemma_assertion_same_variable_list(a: DefId, b: DefId, args: Seq<TyV>, ps: Seq<ParamV>)
    requires
        quant_count(args, ps) > 1,
    ensures
        equality_assertion_smt(a, b, args, ps) == "(assert (forall ("@ + join_with(
            arg_binder_parts(args) + param_binder_parts(ps),
            ' ',
        ) + ") "@ + applied_equality(
            a,
            b,
            join_with(arg_var_parts(args) + param_var_parts(ps), ' '),
        ) + "))"@,
{
    reveal_strlit("(assert (forall (");
    reveal_strlit(") (= (");
    reveal_strlit(") ");
    reveal_strlit("(= (");
    reveal_strlit(" ");
    reveal_strlit(") (");
    reveal_strlit("))))");
    reveal_strlit("))");
    assert(equality_assertion_smt(a, b, args, ps) =~= "(assert (forall ("@ + join_with(
        arg_binder_parts(args) + param_binder_parts(ps),
        ' ',
    ) + ") "@ + applied_equality(
        a,
        b,
        join_with(arg_var_parts(args) + param_var_parts(ps), ' '),
    ) + "))"@);
}

/// The equality assertion stays on one line.
pub proof fn lemma_assertion_clean(a: DefId, b: DefId, args: Seq<TyV>, ps: Seq<ParamV>)
    ensures
        crate::text::line_clean(equality_assertion_smt(a, b, args, ps)),
{
    reveal_strlit("(x");
    reveal_strlit("(p");
    reveal_strlit("x");
    reveal_strlit("p");
    reveal_strlit(" ");
    reveal_strlit(")");
    reveal_strlit("(assert (forall (");
    reveal_strlit(") (= (");
    reveal_strlit(") (");
    reveal_strlit("))))");
    reveal_strlit("(assert (= ");
    reveal_strlit("))");
    crate::smtlib::lemma_def_id_smt_clean(a);
    crate::smtlib::lemma_def_id_smt_clean(b);
    if quant_count(args, ps) > 1 {
        let bparts = arg_binder_parts(args) + param_binder_parts(ps);
        let vparts = arg_var_parts(args) + param_var_parts(ps);
        assert forall|i: int| 0 <= i < bparts.len() implies crate::text::line_clean(
            #[trigger] bparts[i],
        ) by {
            if i < arg_binder_parts(args).len() {
                crate::text::lemma_dec_rep_clean((i + 1) as nat);
                crate::smtlib::lemma_ty_smt_clean(args[i + 1]);
                crate::text::lemma_clean_add("(x"@, dec_rep((i + 1) as nat));
                crate::text::lemma_clean_add("(x"@ + dec_rep((i + 1) as nat), " "@);
                crate::text::lemma_clean_add(
                    "(x"@ + dec_rep((i + 1) as nat) + " "@,
                    ty_smt(args[i + 1]),
                );
                crate::text::lemma_clean_add(
                    "(x"@ + dec_rep((i + 1) as nat) + " "@ + ty_smt(args[i + 1]),
                    ")"@,
                );
            } else {
                let p = ps[i - arg_binder_parts(args).len()];
                crate::text::lemma_dec_rep_clean(p.index);
                crate::smtlib::lemma_ty_smt_clean(p.ty);
                crate::text::lemma_clean_add("(p"@, dec_rep(p.index));
                crate::text::lemma_clean_add("(p"@ + dec_rep(p.index), " "@);
                crate::text::lemma_clean_add("(p"@ + dec_rep(p.index) + " "@, ty_smt(p.ty));
                crate::text::lemma_clean_add("(p"@ + dec_rep(p.index) + " "@ + ty_smt(p.ty), ")"@);
            }
        };
        assert forall|i: int| 0 <= i < vparts.len() implies crate::text::line_clean(
            #[trigger] vparts[i],
        ) by {
            if i < arg_var_parts(args).len() {
                crate::text::lemma_dec_rep_clean((i + 1) as nat);
                crate::text::lemma_clean_add("x"@, dec_rep((i + 1) as nat));
            } else {
                let p = ps[i - arg_var_parts(args).len()];
                crate::text::lemma_dec_rep_clean(p.index);
                crate::text::lemma_clean_add("p"@, dec_rep(p.index));
            }
        };
        crate::text::lemma_join_with_clean(bparts, ' ');
        crate::text::lemma_join_with_clean(vparts, ' ');
        let binders = join_with(bparts, ' ');
        let vars = join_with(vparts, ' ');
        let s1 = "(assert (forall ("@ + binders;
        crate::text::lemma_clean_add("(assert (forall ("@, binders);
        crate::text::lemma_clean_add(s1, ") (= ("@);
        crate::text::lemma_clean_add(s1 + ") (= ("@, def_id_smt(a));
        crate::text::lemma_clean_add(s1 + ") (= ("@ + def_id_smt(a), " "@);
        crate::text::lemma_clean_add(s1 + ") (= ("@ + def_id_smt(a) + " "@, vars);
        crate::text::lemma_clean_add(s1 + ") (= ("@ + def_id_smt(a) + " "@ + vars, ") ("@);
        crate::text::lemma_clean_add(
            s1 + ") (= ("@ + def_id_smt(a) + " "@ + vars + ") ("@,
            def_id_smt(b),
        );
        crate::text::lemma_clean_add(
            s1 + ") (= ("@ + def_id_smt(a) + " "@ + vars + ") ("@ + def_id_smt(b),
            " "@,
        );
        crate::text::lemma_clean_add(
            s1 + ") (= ("@ + def_id_smt(a) + " "@ + vars + ") ("@ + def_id_smt(b) + " "@,
            vars,
        );
        crate::text::lemma_clean_add(
            s1 + ") (= ("@ + def_id_smt(a) + " "@ + vars + ") ("@ + def_id_smt(b) + " "@ + vars,
            "))))"@,
        );
    } else {
        crate::text::lemma_clean_add("(assert (= "@, def_id_smt(a));
        crate::text::lemma_clean_add("(assert (= "@ + def_id_smt(a), " "@);
        crate::text::lemma_clean_add("(assert (= "@ + def_id_smt(a) + " "@, def_id_smt(b));
        crate::text::lemma_clean_add(
            "(assert (= "@ + def_id_smt(a) + " "@ + def_id_smt(b),
            "))"@,
        );
    }
}

/// Builds the equality assertion between two functions over their shared
/// argument-type sequence and parameter list.
pub fn gen_equality_assertion(a: DefId, b: DefId, args_ty: &[Ty], ps: &[Param]) -> (r: String)
    ensures
        r@ == equality_assertion_smt(a, b, tys(args_ty@), params(ps@)),
{
    let ghost args_v = tys(args_ty@);
    let ghost params_v = params(ps@);
    proof {
        lemma_tys(args_ty@);
        lemma_params(ps@);
    }
    let arem: usize = if args_ty.len() > 0 {
        args_ty.len() - 1
    } else {
        0
    };
    let quantified = arem > 1 || ps.len() > 1 || (arem == 1 && ps.len() == 1);
    if quantified {
        let mut binders: Vec<String> = Vec::new();
        let mut vars: Vec<String> = Vec::new();
        let mut i: usize = 1;
        while i < args_ty.len()
            invariant
                1 <= i,
                i <= args_ty.len() || i == 1,
                args_v.len() == args_ty@.len(),
                forall|k: int| 0 <= k < args_ty@.len() ==> args_v[k] == args_ty@[k]@,
                binders@.len() == i - 1,
                vars@.len() == i - 1,
                forall|k: int|
                    0 <= k < i - 1 ==> binders@[k]@ == ("(x"@ + dec_rep((k + 1) as nat) + " "@
                        + ty_smt(args_v[k + 1]) + ")"@),
                forall|k: int| 0 <= k < i - 1 ==> vars@[k]@ == ("x"@ + dec_rep((k + 1) as nat)),
            decreases args_ty@.len() - i,
        {
            let mut t = "(x".to_owned();
            t.append(dec_string(i as u64).as_str());
            t.append(" ");
            t.append(args_ty[i].to_smtlib().as_str());
            t.append(")");
            binders.push(t);
            let mut v = "x".to_owned();
            v.append(dec_string(i as u64).as_str());
            vars.push(v);
            i = i + 1;
        }
        let mut j: usize = 0;
        while j < ps.len()
            invariant
                0 <= j <= ps.len(),
                args_v.len() == args_ty@.len(),
                params_v.len() == ps@.len(),
                forall|k: int| 0 <= k < ps@.len() ==> params_v[k] == ps@[k]@,
                binders@.len() == arg_binder_parts(args_v).len() + j,
                vars@.len() == arg_var_parts(args_v).len() + j,
                forall|k: int|
                    0 <= k < arg_binder_parts(args_v).len() ==> binders@[k]@ == arg_binder_parts(
                        args_v,
                    )[k],
                forall|k: int|
                    0 <= k < arg_var_parts(args_v).len() ==> vars@[k]@ == arg_var_parts(args_v)[k],
                forall|k: int|
                    0 <= k < j ==> binders@[arg_binder_parts(args_v).len() + k]@ == ("(p"@
                        + dec_rep(params_v[k].index) + " "@ + ty_smt(params_v[k].ty) + ")"@),
                forall|k: int|
                    0 <= k < j ==> vars@[arg_var_parts(args_v).len() + k]@ == ("p"@ + dec_rep(
                        params_v[k].index,
                    )),
            decreases ps@.len() - j,
        {
            let mut t = "(p".to_owned();
            t.append(dec_string(ps[j].0).as_str());
            t.append(" ");
            t.append(ps[j].1.to_smtlib().as_str());
            t.append(")");
            binders.push(t);
            let mut v = "p".to_owned();
            v.append(dec_string(ps[j].0).as_str());
            vars.push(v);
            j = j + 1;
        }
        proof {
            reveal_strlit(" ");
            assert(binders@.map_values(|p: String| p@) =~= arg_binder_parts(args_v)
                + param_binder_parts(params_v));
            assert(vars@.map_values(|p: String| p@) =~= arg_var_parts(args_v) + param_var_parts(
                params_v,
            ));
        }
        let binders_s = join_parts(&binders, " ");
        let vars_s = join_parts(&vars, " ");
        let mut s = "(assert (forall (".to_owned();
        s.append(binders_s.as_str());
        s.append(") (= (");
        s.append(a.to_smtlib().as_str());
        s.append(" ");
        s.append(vars_s.as_str());
        s.append(") (");
        s.append(b.to_smtlib().as_str());
        s.append(" ");
        s.append(vars_s.as_str());
        s.append("))))");
        s
    } else {
        let mut s = "(assert (= ".to_owned();
        s.append(a.to_smtlib().as_str());
        s.append(" ");
        s.append(b.to_smtlib().as_str());
        s.append("))");
        s
    }
}

/// Two definitions are comparable when both signatures are function types
/// with structurally equal argument-type sequences and parameter lists.
pub open spec fn comparable(a: FuncDefV, b: FuncDefV) -> bool {
    match (a.ty, b.ty) {
        (TyV::Func(aa, ap, _), TyV::Func(ba, bp, _)) => aa == ba && ap == bp,
        _ => false,
    }
}

/// Holds of a type not already among `a`.
pub open spec fn not_in(a: Seq<TyV>) -> spec_fn(TyV) -> bool {
    |t: TyV| !a.contains(t)
}

/// The datatype instances of both bodies merged: all of the first body's,
/// in order, then those of the second body not already present, in their
/// own order.
pub open spec fn merged_instances(a: Seq<TyV>, b: Seq<TyV>) -> Seq<TyV> {
    a + b.filter(not_in(a))
}

/// The argument-type sequence of a function type.
pub open spec fn sig_args(t: TyV) -> Seq<TyV> {
    match t {
        TyV::Func(args, _, _) => args,
        _ => Seq::empty(),
    }
}

/// The parameter list of a function type.
pub open spec fn sig_params(t: TyV) -> Seq<ParamV> {
    match t {
        TyV::Func(_, ps, _) => ps,
        _ => Seq::empty(),
    }
}

/// The lines of the composed program, in order: the fixed preamble
/// declaring the generic pair and unit shapes, one monomorphization hint
/// per merged datatype instance, the two function declarations, the
/// equality assertion, and the verdict request.
pub open spec fn query_lines(a: FuncDefV, b: FuncDefV) -> Seq<Seq<char>> {
    seq![
        "(declare-datatypes (T1 T2) ((Tuple (tuple (first T1) (second T2)))))"@,
        "(declare-datatypes () ((Unit (unit))))"@,
    ] + merged_instances(a.instances, b.instances).map_values(|t: TyV| instance_decl_smt(t))
        + seq![
        func_decl_smt(a),
        func_decl_smt(b),
        equality_assertion_smt(a.def_id, b.def_id, sig_args(a.ty), sig_params(a.ty)),
        "(check-sat)"@,
    ]
}

/// The whole composed program: its lines joined by newlines.
pub open spec fn query_smt(a: FuncDefV, b: FuncDefV) -> Seq<char> {
    join_with(query_lines(a, b), '\n')
}

/// Filtering one more element keeps the element exactly when the predicate
/// holds of it.
pub proof fn lemma_filter_push<A>(s: Seq<A>, x: A, pred: spec_fn(A) -> bool)
    ensures
        s.push(x).filter(pred) == if pred(x) {
            s.filter(pred).push(x)
        } else {
            s.filter(pred)
        },
{
    reveal(Seq::filter);
    assert(s.push(x).drop_last() =~= s);
    assert(s.push(x).last() == x);
}

/// Filtering keeps a duplicate-free sequence duplicate-free.
pub proof fn lemma_filter_no_dup<A>(s: Seq<A>, pred: spec_fn(A) -> bool)
    requires
        s.no_duplicates(),
    ensures
        s.filter(pred).no_duplicates(),
    decreases s.len(),
{
    reveal(Seq::filter);
    if s.len() == 0 {
        assert(s.filter(pred) =~= Seq::<A>::empty());
    } else {
        let s0 = s.drop_last();
        let x = s.last();
        assert(s0.no_duplicates());
        lemma_filter_no_dup(s0, pred);
        if pred(x) {
            assert(s.filter(pred) == s0.filter(pred).push(x));
            if s0.filter(pred).contains(x) {
                s0.lemma_filter_contains_rev(pred, x);
                let i = choose|i: int| 0 <= i < s0.len() && s0[i] == x;
                assert(s[i] == s[s.len() - 1]);
                assert(false);
            }
            assert forall|i1: int, j1: int|
                0 <= i1 < s.filter(pred).len() && 0 <= j1 < s.filter(pred).len() && i1
                    != j1 implies s.filter(pred)[i1] != s.filter(pred)[j1] by {
                let f0 = s0.filter(pred);
                if i1 < f0.len() && j1 < f0.len() {
                    assert(f0[i1] != f0[j1]);
                } else if i1 < f0.len() {
                    assert(s.filter(pred)[j1] == x && !f0.contains(x));
                    assert(f0[i1] != x);
                } else {
                    assert(s.filter(pred)[i1] == x && !f0.contains(x));
                    assert(f0[j1] != x);
                }
            };
        } else {
            assert(s.filter(pred) == s0.filter(pred));
        }
    }
}

/// The merge of the two bodies' instance sequences keeps the first body's
/// instances as an unchanged prefix, holds exactly the instances of either
/// body, and holds no instance twice.
pub proof fn lemma_merged_instances(a: Seq<TyV>, b: Seq<TyV>)
    requires
        a.no_duplicates(),
        b.no_duplicates(),
    ensures
        merged_instances(a, b).subrange(0, a.len() as int) == a,
        forall|t: TyV|
            #[trigger] merged_instances(a, b).contains(t) <==> a.contains(t) || b.contains(t),
        merged_instances(a, b).no_duplicates(),
{
    let f = b.filter(not_in(a));
    let m = merged_instances(a, b);
    assert(m.subrange(0, a.len() as int) =~= a);
    assert forall|t: TyV| #[trigger] m.contains(t) implies a.contains(t) || b.contains(t) by {
        let i = choose|i: int| 0 <= i < m.len() && m[i] == t;
        if i < a.len() {
            assert(a[i] == t);
        } else {
            assert(f[i - a.len()] == t);
            assert(f.contains(t));
            b.lemma_filter_contains_rev(not_in(a), t);
        }
    };
    assert forall|t: TyV| a.contains(t) || b.contains(t) implies #[trigger] m.contains(t) by {
        if a.contains(t) {
            let i = choose|i: int| 0 <= i < a.len() && a[i] == t;
            assert(m[i] == t);
        } else {
            let i = choose|i: int| 0 <= i < b.len() && b[i] == t;
            assert(not_in(a)(b[i]));
            b.lemma_filter_contains(not_in(a), i);
            let k = choose|k: int| 0 <= k < f.len() && f[k] == t;
            assert(m[a.len() + k] == t);
        }
    };
    lemma_filter_no_dup(b, not_in(a));
    assert forall|i1: int, j1: int|
        0 <= i1 < m.len() && 0 <= j1 < m.len() && i1 != j1 implies m[i1] != m[j1] by {
        if i1 < a.len() && j1 < a.len() {
            assert(a[i1] != a[j1]);
        } else if a.len() <= i1 && a.len() <= j1 {
            assert(f[i1 - a.len()] != f[j1 - a.len()]);
        } else {
            let ai = if i1 < a.len() {
                i1
            } else {
                j1
            };
            let fj = if i1 < a.len() {
                j1
            } else {
                i1
            };
            b.lemma_filter_pred(not_in(a), fj - a.len());
            assert(!a.contains(f[fj - a.len()]));
            assert(a[ai] != f[fj - a.len()]);
        }
    };
}

/// A type and its deep view are function types together.
pub proof fn lemma_ty_view_func(t: Ty)
    ensures
        (t@ is Func) <==> (t is Func),
{
    match t {
        Ty::Bool => {},
        Ty::Int(w) => {},
        Ty::Uint(w) => {},
        Ty::Unit => {},
        Ty::Tuple(l, r) => {},
        Ty::Func(args, ps, res) => {},
    }
}

/// Every line of the composed program stays on one line: the program text,
/// joined with newlines, has exactly the line structure `query_lines`
/// states, however many datatype instances or parameters there are.
pub proof fn lemma_query_lines_clean(a: FuncDefV, b: FuncDefV)
    ensures
        forall|i: int|
            0 <= i < query_lines(a, b).len() ==> crate::text::line_clean(
                #[trigger] query_lines(a, b)[i],
            ),
{
    reveal_strlit("(declare-datatypes (T1 T2) ((Tuple (tuple (first T1) (second T2)))))");
    reveal_strlit("(declare-datatypes () ((Unit (unit))))");
    reveal_strlit("(check-sat)");
    crate::smtlib::lemma_func_decl_clean(a);
    crate::smtlib::lemma_func_decl_clean(b);
    lemma_assertion_clean(a.def_id, b.def_id, sig_args(a.ty), sig_params(a.ty));
    let lines = query_lines(a, b);
    let m = merged_instances(a.instances, b.instances);
    assert forall|i: int| 0 <= i < lines.len() implies crate::text::line_clean(
        #[trigger] lines[i],
    ) by {
        if 2 <= i < 2 + m.len() {
            assert(lines[i] == instance_decl_smt(m[i - 2]));
            crate::smtlib::lemma_instance_decl_clean(m[i - 2]);
        }
    };
}

/// The merged instances of the two bodies, prefix by prefix of the second
/// body's sequence.
spec fn merged_prefix(a: Seq<TyV>, b: Seq<TyV>, j: int) -> Seq<TyV> {
    a + b.subrange(0, j).filter(not_in(a))
}

/// Composes the satisfiability query that decides whether the two
/// definitions are semantically equal. When the two signatures are not both
/// function types, or their argument-type sequences or parameter lists
/// differ, the definitions are not comparable: no query exists and the
/// verdict is `Unsat` at once, with nothing for a prover to do. Otherwise
/// the composed program text is returned for the caller to hand to the
/// prover.
pub fn compose_equality_query(a: &FuncDef, b: &FuncDef) -> (r: Result<String, CheckResult>)
    ensures
        comparable(a@, b@) ==> (r matches Ok(q) && q@ == query_smt(a@, b@)),
        !comparable(a@, b@) ==> r == Err::<String, CheckResult>(CheckResult::Unsat),
{
    match (&a.ty, &b.ty) {
        (Ty::Func(a_args, a_params, _), Ty::Func(b_args, b_params, _)) => {
            let args_ok = crate::sir::ty_vec_eq(a_args, b_args);
            let params_ok = crate::sir::param_vec_eq(a_params, b_params);
            if args_ok && params_ok {
                let ghost av = a@;
                let ghost bv = b@;
                let mut lines: Vec<String> = Vec::new();
                lines.push(
                    "(declare-datatypes (T1 T2) ((Tuple (tuple (first T1) (second T2)))))".to_owned(),
                );
                lines.push("(declare-datatypes () ((Unit (unit))))".to_owned());
                let a_inst = a.body.find_datatype_instances();
                proof {
                    lemma_tys(a_inst@);
                }
                let mut i: usize = 0;
                while i < a_inst.len()
                    invariant
                        0 <= i <= a_inst.len(),
                        tys(a_inst@) == av.instances,
                        av.instances.len() == a_inst@.len(),
                        forall|k: int|
                            0 <= k < a_inst@.len() ==> av.instances[k] == a_inst@[k]@,
                        lines@.len() == 2 + i,
                        lines@[0]@ == "(declare-datatypes (T1 T2) ((Tuple (tuple (first T1) (second T2)))))"@,
                        lines@[1]@ == "(declare-datatypes () ((Unit (unit))))"@,
                        forall|k: int|
                            0 <= k < i ==> lines@[2 + k]@ == instance_decl_smt(av.instances[k]),
                    decreases a_inst@.len() - i,
                {
                    lines.push(instance_decl(&a_inst[i]));
                    i = i + 1;
                }
                let b_inst = b.body.find_datatype_instances();
                proof {
                    lemma_tys(b_inst@);
                }
                let ghost an = av.instances.len() as int;
                let mut j: usize = 0;
                while j < b_inst.len()
                    invariant
                        0 <= j <= b_inst.len(),
                        tys(a_inst@) == av.instances,
                        tys(b_inst@) == bv.instances,
                        bv.instances.len() == b_inst@.len(),
                        forall|k: int|
                            0 <= k < b_inst@.len() ==> bv.instances[k] == b_inst@[k]@,
                        an == av.instances.len(),
                        lines@.len() == 2 + merged_prefix(av.instances, bv.instances, j as int).len(),
                        lines@[0]@ == "(declare-datatypes (T1 T2) ((Tuple (tuple (first T1) (second T2)))))"@,
                        lines@[1]@ == "(declare-datatypes () ((Unit (unit))))"@,
                        forall|k: int|
                            0 <= k < merged_prefix(av.instances, bv.instances, j as int).len()
                                ==> lines@[2 + k]@ == instance_decl_smt(
                                merged_prefix(av.instances, bv.instances, j as int)[k],
                            ),
                    decreases b_inst@.len() - j,
                {
                    let ghost sub0 = bv.instances.subrange(0, j as int);
                    let fresh = !crate::sir::contains_ty(a_inst, &b_inst[j]);
                    if fresh {
                        lines.push(instance_decl(&b_inst[j]));
                    }
                    proof {
                        assert(bv.instances.subrange(0, (j + 1) as int) =~= sub0.push(
                            bv.instances[j as int],
                        ));
                        lemma_filter_push(sub0, bv.instances[j as int], not_in(av.instances));
                        if fresh {
                            assert(not_in(av.instances)(bv.instances[j as int]));
                            assert(merged_prefix(av.instances, bv.instances, (j + 1) as int)
                                =~= merged_prefix(av.instances, bv.instances, j as int).push(
                                bv.instances[j as int],
                            ));
                        } else {
                            assert(!not_in(av.instances)(bv.instances[j as int]));
                            assert(merged_prefix(av.instances, bv.instances, (j + 1) as int)
                                =~= merged_prefix(av.instances, bv.instances, j as int));
                        }
                    }
                    j = j + 1;
                }
                proof {
                    assert(bv.instances.subrange(0, bv.instances.len() as int) =~= bv.instances);
                }
                lines.push(a.to_smtlib());
                lines.push(b.to_smtlib());
                lines.push(
                    gen_equality_assertion(
                        a.def_id,
                        b.def_id,
                        a_args.as_slice(),
                        a_params.as_slice(),
                    ),
                );
                lines.push("(check-sat)".to_owned());
                proof {
                    reveal_strlit("\n");
                    assert(lines@.map_values(|p: String| p@) =~= query_lines(av, bv));
                }
                Ok(join_parts(&lines, "\n"))
            } else {
                Err(CheckResult::Unsat)
            }
        },
        _ => {
            proof {
                lemma_ty_view_func(a.ty);
                lemma_ty_view_func(b.ty);
            }
            Err(CheckResult::Unsat)
        },
    }
}

} // verus!
