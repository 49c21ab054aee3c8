//! The textual encoder: renders types, function identifiers and function
//! declarations as solver-language text. Every rendering is pinned, character
//! for character, by a spec function over the deep views, so the same value
//! always renders to the same text.

use vstd::prelude::*;
use vstd::string::StringExecFns;

use crate::sir::{lemma_params, lemma_tys, DefId, FuncDef, FuncDefV, Param, ParamV, Ty, TyV};
use crate::text::{dec_rep, dec_string, join_parts, join_with};

verus! {

/// The canonical text form of a type, used as a solver sort. A function
/// type renders as its result sort alone: when a function is declared, its
/// argument sorts are rendered positionally, never as part of a type string.
pub open spec fn ty_smt(t: TyV) -> Seq<char>
    decreases t,
{
    match t {
        TyV::Bool => "Bool"@,
        TyV::Int(w) => "(_ BitVec "@ + dec_rep(w) + ")"@,
        TyV::Uint(w) => "(_ BitVec "@ + dec_rep(w) + ")"@,
        TyV::Unit => "Unit"@,
        TyV::Tuple(l, r) => "(Tuple "@ + ty_smt(*l) + " "@ + ty_smt(*r) + ")"@,
        TyV::Func(args, params, res) => ty_smt(*res),
    }
}

/// The stable, collision-free solver name of a function identifier.
pub open spec fn def_id_smt(d: DefId) -> Seq<char> {
    "f"@ + dec_rep(d.0 as nat)
}

/// The monomorphization hint for one datatype instance: an unnamed constant
/// of that sort, declared only to force the solver to instantiate the
/// polymorphic datatype template; the constant is never referenced again.
pub open spec fn instance_decl_smt(t: TyV) -> Seq<char> {
    "(declare-const _ "@ + ty_smt(t) + ")"@
}

/// The domain sorts of a function declaration: the argument types in their
/// original order (the first included), then the parameter types in list
/// order.
pub open spec fn func_sorts(args: Seq<TyV>, params: Seq<ParamV>) -> Seq<Seq<char>> {
    args.map_values(|t: TyV| ty_smt(t)) + params.map_values(|p: ParamV| ty_smt(p.ty))
}

/// The solver declaration of a function: its name, its domain sorts, and
/// the result sort taken from the signature's return type.
pub open spec fn func_decl_smt(f: FuncDefV) -> Seq<char> {
    match f.ty {
        TyV::Func(args, params, res) => "(declare-fun "@ + def_id_smt(f.def_id) + " ("@
            + join_with(func_sorts(args, params), ' ') + ") "@ + ty_smt(*res) + ")"@,
        _ => Seq::empty(),
    }
}

impl Ty {
    /// Renders this type as its solver sort text.
    pub fn to_smtlib(&self) -> (r: String)
        ensures
            r@ == ty_smt(self@),
        decreases *self,
    {
        match self {
            Ty::Bool => "Bool".to_owned(),
            Ty::Int(w) => {
                let mut s = "(_ BitVec ".to_owned();
                s.append(dec_string(*w).as_str());
                s.append(")");
                s
            },
            Ty::Uint(w) => {
                let mut s = "(_ BitVec ".to_owned();
                s.append(dec_string(*w).as_str());
                s.append(")");
                s
            },
            Ty::Unit => "Unit".to_owned(),
            Ty::Tuple(l, r) => {
                let mut s = "(Tuple ".to_owned();
                s.append(l.to_smtlib().as_str());
                s.append(" ");
                s.append(r.to_smtlib().as_str());
                s.append(")");
                s
            },
            Ty::Func(args, params, res) => res.to_smtlib(),
        }
    }
}

impl DefId {
    /// Renders this identifier as its solver name.
    pub fn to_smtlib(&self) -> (r: String)
        ensures
            r@ == def_id_smt(*self),
    {
        let mut s = "f".to_owned();
        s.append(dec_string(self.0).as_str());
        s
    }
}

/// Renders the monomorphization hint for one datatype instance.
pub fn instance_decl(t: &Ty) -> (r: String)
    ensures
        r@ == instance_decl_smt(t@),
{
    let mut s = "(declare-const _ ".to_owned();
    s.append(t.to_smtlib().as_str());
    s.append(")");
    s
}

impl FuncDef {
    /// Renders this definition as a solver function declaration.
    pub fn to_smtlib(&self) -> (r: String)
        requires
            self.ty matches Ty::Func(..),
        ensures
            r@ == func_decl_smt(self@),
    {
        match &self.ty {
            Ty::Func(args, params, res) => {
                let ghost args_v = crate::sir::tys(args@);
                let ghost params_v = crate::sir::params(params@);
                proof {
                    lemma_tys(args@);
                    lemma_params(params@);
                }
                let mut sorts: Vec<String> = Vec::new();
                let mut i: usize = 0;
                while i < args.len()
                    invariant
                        0 <= i <= args.len(),
                        args_v.len() == args@.len(),
                        forall|k: int| 0 <= k < args@.len() ==> args_v[k] == args@[k]@,
                        sorts@.len() == i,
                        forall|k: int| 0 <= k < i ==> sorts@[k]@ == ty_smt(args_v[k]),
                    decreases args@.len() - i,
                {
                    sorts.push(args[i].to_smtlib());
                    i = i + 1;
                }
                let mut j: usize = 0;
                while j < params.len()
                    invariant
                        0 <= j <= params.len(),
                        args_v.len() == args@.len(),
                        params_v.len() == params@.len(),
                        forall|k: int| 0 <= k < args@.len() ==> args_v[k] == args@[k]@,
                        forall|k: int| 0 <= k < params@.len() ==> params_v[k] == params@[k]@,
                        sorts@.len() == args@.len() + j,
                        forall|k: int| 0 <= k < args@.len() ==> sorts@[k]@ == ty_smt(args_v[k]),
                        forall|k: int|
                            0 <= k < j ==> sorts@[args@.len() + k]@ == ty_smt(params_v[k].ty),
                    decreases params@.len() - j,
                {
                    sorts.push(params[j].1.to_smtlib());
                    j = j + 1;
                }
                proof {
                    assert(sorts@.map_values(|p: String| p@) =~= func_sorts(args_v, params_v));
                }
                proof {
                    reveal_strlit(" ");
                }
                let mut s = "(declare-fun ".to_owned();
                s.append(self.def_id.to_smtlib().as_str());
                s.append(" (");
                s.append(join_parts(&sorts, " ").as_str());
                s.append(") ");
                s.append(res.to_smtlib().as_str());
                s.append(")");
                s
            },
            _ => vstd::pervasive::unreached(),
        }
    }
}

/// A rendered sort stays on one line.
pub proof fn lemma_ty_smt_clean(t: TyV)
    ensures
        crate::text::line_clean(ty_smt(t)),
    decreases t,
{
    match t {
        TyV::Bool => {
            reveal_strlit("Bool");
        },
        TyV::Int(w) => {
            reveal_strlit("(_ BitVec ");
            reveal_strlit(")");
            crate::text::lemma_dec_rep_clean(w);
            crate::text::lemma_clean_add("(_ BitVec "@, dec_rep(w));
            crate::text::lemma_clean_add("(_ BitVec "@ + dec_rep(w), ")"@);
        },
        TyV::Uint(w) => {
            reveal_strlit("(_ BitVec ");
            reveal_strlit(")");
            crate::text::lemma_dec_rep_clean(w);
            crate::text::lemma_clean_add("(_ BitVec "@, dec_rep(w));
            crate::text::lemma_clean_add("(_ BitVec "@ + dec_rep(w), ")"@);
        },
        TyV::Unit => {
            reveal_strlit("Unit");
        },
        TyV::Tuple(l, r) => {
            reveal_strlit("(Tuple ");
            reveal_strlit(" ");
            reveal_strlit(")");
            lemma_ty_smt_clean(*l);
            lemma_ty_smt_clean(*r);
            crate::text::lemma_clean_add("(Tuple "@, ty_smt(*l));
            crate::text::lemma_clean_add("(Tuple "@ + ty_smt(*l), " "@);
            crate::text::lemma_clean_add("(Tuple "@ + ty_smt(*l) + " "@, ty_smt(*r));
            crate::text::lemma_clean_add("(Tuple "@ + ty_smt(*l) + " "@ + ty_smt(*r), ")"@);
        },
        TyV::Func(args, ps, res) => {
            lemma_ty_smt_clean(*res);
        },
    }
}

/// A rendered identifier stays on one line.
pub proof fn lemma_def_id_smt_clean(d: DefId)
    ensures
        crate::text::line_clean(def_id_smt(d)),
{
    reveal_strlit("f");
    crate::text::lemma_dec_rep_clean(d.0 as nat);
    crate::text::lemma_clean_add("f"@, dec_rep(d.0 as nat));
}

/// A monomorphization hint stays on one line.
pub proof fn lemma_instance_decl_clean(t: TyV)
    ensures
        crate::text::line_clean(instance_decl_smt(t)),
{
    reveal_strlit("(declare-const _ ");
    reveal_strlit(")");
    lemma_ty_smt_clean(t);
    crate::text::lemma_clean_add("(declare-const _ "@, ty_smt(t));
    crate::text::lemma_clean_add("(declare-const _ "@ + ty_smt(t), ")"@);
}

/// A function declaration stays on one line.
pub proof fn lemma_func_decl_clean(f: FuncDefV)
    ensures
        crate::text::line_clean(func_decl_smt(f)),
{
    match f.ty {
        TyV::Func(args, ps, res) => {
            let sorts = func_sorts(args, ps);
            assert forall|i: int| 0 <= i < sorts.len() implies crate::text::line_clean(
                #[trigger] sorts[i],
            ) by {
                if i < args.len() {
                    assert(sorts[i] == ty_smt(args[i]));
                    lemma_ty_smt_clean(args[i]);
                } else {
                    assert(sorts[i] == ty_smt(ps[i - args.len()].ty));
                    lemma_ty_smt_clean(ps[i - args.len()].ty);
                }
            };
            crate::text::lemma_join_with_clean(sorts, ' ');
            reveal_strlit("(declare-fun ");
            reveal_strlit(" (");
            reveal_strlit(") ");
            reveal_strlit(")");
            lemma_def_id_smt_clean(f.def_id);
            lemma_ty_smt_clean(*res);
            let s1 = "(declare-fun "@ + def_id_smt(f.def_id);
            crate::text::lemma_clean_add("(declare-fun "@, def_id_smt(f.def_id));
            crate::text::lemma_clean_add(s1, " ("@);
            crate::text::lemma_clean_add(s1 + " ("@, join_with(sorts, ' '));
            crate::text::lemma_clean_add(s1 + " ("@ + join_with(sorts, ' '), ") "@);
            crate::text::lemma_clean_add(s1 + " ("@ + join_with(sorts, ' ') + ") "@, ty_smt(*res));
            crate::text::lemma_clean_add(
                s1 + " ("@ + join_with(sorts, ' ') + ") "@ + ty_smt(*res),
                ")"@,
            );
        },
        _ => {},
    }
}

/// Identifier names never collide: distinct identifiers render to distinct
/// solver names.
pub proof fn lemma_def_id_smt_injective(d1: DefId, d2: DefId)
    requires
        def_id_smt(d1) == def_id_smt(d2),
    ensures
        d1 == d2,
{
    reveal_strlit("f");
    let s1 = def_id_smt(d1);
    let s2 = def_id_smt(d2);
    assert(dec_rep(d1.0 as nat) =~= s1.subrange(1, s1.len() as int));
    assert(dec_rep(d2.0 as nat) =~= s2.subrange(1, s2.len() as int));
    crate::text::lemma_dec_rep_injective(d1.0 as nat, d2.0 as nat);
}

/// Rendering is a function of the rendered value alone: two renderings of
/// one type, or of one identifier, are byte-identical, within one query and
/// across queries.
pub proof fn lemma_render_deterministic(t: TyV, d: DefId, r1: Seq<char>, r2: Seq<char>)
    ensures
        r1 == ty_smt(t) && r2 == ty_smt(t) ==> r1 == r2,
        r1 == def_id_smt(d) && r2 == def_id_smt(d) ==> r1 == r2,
{
}

} // verus!
