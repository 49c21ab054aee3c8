//! The slice of the typed intermediate representation that the encoder
//! reads: types, parameters, function identifiers and function definitions.
//!
//! Each executable type has a ghost deep view (`TyV`, `ParamV`, `FuncDefV`)
//! whose sequences are mathematical `Seq`s, so that contracts can speak of
//! structural equality directly; the executable equality tests decide
//! equality of those views.

use vstd::prelude::*;

verus! {

broadcast use
    vstd::std_specs::vec::axiom_vec_index_decreases,
    vstd::std_specs::vec::axiom_vec_decreases_to_view,
    vstd::seq::axiom_seq_index_decreases;

/// An opaque, globally unique handle naming a function.
#[derive(Clone, Copy, Debug, PartialEq, Eq, Structural)]
pub struct DefId(pub u64);

/// A type of the intermediate representation: a closed set of data shapes
/// (booleans, sized integers, the unit shape and the pair shape) plus
/// function types. A function type carries its argument-type sequence, its
/// parameter list and its result type.
#[derive(Debug, PartialEq, Eq)]
pub enum Ty {
    Bool,
    Int(u64),
    Uint(u64),
    Unit,
    Tuple(Box<Ty>, Box<Ty>),
    Func(Vec<Ty>, Vec<Param>, Box<Ty>),
}

/// One non-regular-argument slot of a function: an index paired with a type.
/// Ordering among parameters is insertion order and is semantically
/// meaningful.
#[derive(Debug, PartialEq, Eq)]
pub struct Param(pub u64, pub Ty);

/// The deep view of a `Ty`: the same shape with sequences in place of
/// vectors.
#[verifier::ext_equal]
pub enum TyV {
    Bool,
    Int(nat),
    Uint(nat),
    Unit,
    Tuple(Box<TyV>, Box<TyV>),
    Func(Seq<TyV>, Seq<ParamV>, Box<TyV>),
}

/// The deep view of a `Param`.
#[verifier::ext_equal]
pub struct ParamV {
    pub index: nat,
    pub ty: TyV,
}

/// The deep view of a `Ty`.
pub open spec fn ty_view(t: Ty) -> TyV
    decreases t, 0int,
{
    match t {
        Ty::Bool => TyV::Bool,
        Ty::Int(w) => TyV::Int(w as nat),
        Ty::Uint(w) => TyV::Uint(w as nat),
        Ty::Unit => TyV::Unit,
        Ty::Tuple(l, r) => TyV::Tuple(Box::new(ty_view(*l)), Box::new(ty_view(*r))),
        Ty::Func(args, params, res) => TyV::Func(
            tys_view(args@, 0),
            params_view(params@, 0),
            Box::new(ty_view(*res)),
        ),
    }
}

/// The deep views of the types of a sequence, from position `i` on.
pub open spec fn tys_view(s: Seq<Ty>, i: int) -> Seq<TyV>
    decreases s, s.len() - i,
{
    if 0 <= i < s.len() {
        seq![ty_view(s[i])] + tys_view(s, i + 1)
    } else {
        Seq::empty()
    }
}

/// The deep views of the parameters of a sequence, from position `i` on.
pub open spec fn params_view(s: Seq<Param>, i: int) -> Seq<ParamV>
    decreases s, s.len() - i,
{
    if 0 <= i < s.len() {
        seq![ParamV { index: s[i].0 as nat, ty: ty_view(s[i].1) }] + params_view(s, i + 1)
    } else {
        Seq::empty()
    }
}

/// The deep views of a whole type sequence.
pub open spec fn tys(s: Seq<Ty>) -> Seq<TyV> {
    tys_view(s, 0)
}

/// The deep views of a whole parameter sequence.
pub open spec fn params(s: Seq<Param>) -> Seq<ParamV> {
    params_view(s, 0)
}

/// `tys_view` walks the sequence element by element.
pub proof fn lemma_tys_view(s: Seq<Ty>, i: int)
    requires
        0 <= i <= s.len(),
    ensures
        tys_view(s, i).len() == s.len() - i,
        forall|k: int| 0 <= k < s.len() - i ==> tys_view(s, i)[k] == ty_view(s[i + k]),
    decreases s.len() - i,
{
    if i < s.len() {
        lemma_tys_view(s, i + 1);
    }
}

/// The deep view of a type sequence is its elementwise deep view.
pub proof fn lemma_tys(s: Seq<Ty>)
    ensures
        tys(s).len() == s.len(),
        forall|k: int| 0 <= k < s.len() ==> tys(s)[k] == ty_view(s[k]),
{
    lemma_tys_view(s, 0);
}

/// `params_view` walks the sequence element by element.
pub proof fn lemma_params_view(s: Seq<Param>, i: int)
    requires
        0 <= i <= s.len(),
    ensures
        params_view(s, i).len() == s.len() - i,
        forall|k: int|
            0 <= k < s.len() - i ==> params_view(s, i)[k] == (ParamV {
                index: s[i + k].0 as nat,
                ty: ty_view(s[i + k].1),
            }),
    decreases s.len() - i,
{
    if i < s.len() {
        lemma_params_view(s, i + 1);
    }
}

/// The deep view of a parameter sequence is its elementwise deep view.
pub proof fn lemma_params(s: Seq<Param>)
    ensures
        params(s).len() == s.len(),
        forall|k: int|
            0 <= k < s.len() ==> params(s)[k] == (ParamV {
                index: s[k].0 as nat,
                ty: ty_view(s[k].1),
            }),
{
    lemma_params_view(s, 0);
}

impl View for Ty {
    type V = TyV;

    open spec fn view(&self) -> TyV {
        ty_view(*self)
    }
}

impl View for Param {
    type V = ParamV;

    open spec fn view(&self) -> ParamV {
        ParamV { index: self.0 as nat, ty: ty_view(self.1) }
    }
}

/// What the encoder reads of a function body: the distinct concrete data
/// shapes the body instantiates, in discovery order. The collector that
/// fills this list guarantees it free of structural duplicates; that
/// guarantee is load-bearing for the query composer's merge step.
#[derive(Debug, PartialEq, Eq)]
pub struct Body {
    pub datatype_instances: Vec<Ty>,
}

impl View for Body {
    type V = Seq<TyV>;

    open spec fn view(&self) -> Seq<TyV> {
        tys(self.datatype_instances@)
    }
}

impl Body {
    /// The distinct concrete data shapes the body instantiates, in
    /// discovery order.
    pub fn find_datatype_instances(&self) -> (r: &Vec<Ty>)
        ensures
            tys(r@) == self@,
    {
        &self.datatype_instances
    }
}

/// A function definition: identifier, signature and body.
#[derive(Debug, PartialEq, Eq)]
pub struct FuncDef {
    pub def_id: DefId,
    pub ty: Ty,
    pub body: Body,
}

/// The deep view of a `FuncDef`.
#[verifier::ext_equal]
pub struct FuncDefV {
    pub def_id: DefId,
    pub ty: TyV,
    pub instances: Seq<TyV>,
}

impl View for FuncDef {
    type V = FuncDefV;

    open spec fn view(&self) -> FuncDefV {
        FuncDefV { def_id: self.def_id, ty: self.ty@, instances: self.body@ }
    }
}

/// Structural equality of two types, decided recursively.
pub fn ty_eq(a: &Ty, b: &Ty) -> (r: bool)
    ensures
        r == (a@ == b@),
    decreases *a,
{
    match a {
        Ty::Bool => match b {
            Ty::Bool => true,
            _ => false,
        },
        Ty::Int(x) => match b {
            Ty::Int(y) => *x == *y,
            _ => false,
        },
        Ty::Uint(x) => match b {
            Ty::Uint(y) => *x == *y,
            _ => false,
        },
        Ty::Unit => match b {
            Ty::Unit => true,
            _ => false,
        },
        Ty::Tuple(a0, a1) => match b {
            Ty::Tuple(b0, b1) => ty_eq(a0, b0) && ty_eq(a1, b1),
            _ => false,
        },
        Ty::Func(a_args, a_params, a_res) => match b {
            Ty::Func(b_args, b_params, b_res) => {
                let args_eq = ty_vec_eq(a_args, b_args);
                let params_eq = param_vec_eq(a_params, b_params);
                args_eq && params_eq && ty_eq(a_res, b_res)
            },
            _ => false,
        },
    }
}

/// Structural equality of two type sequences.
pub fn ty_vec_eq(a: &Vec<Ty>, b: &Vec<Ty>) -> (r: bool)
    ensures
        r == (tys(a@) == tys(b@)),
    decreases *a,
{
    proof {
        lemma_tys(a@);
        lemma_tys(b@);
    }
    if a.len() != b.len() {
        return false;
    }
    let mut i: usize = 0;
    while i < a.len()
        invariant
            0 <= i <= a.len(),
            a@.len() == b@.len(),
            forall|k: int| 0 <= k < i ==> tys(a@)[k] == tys(b@)[k],
            tys(a@).len() == a@.len(),
            tys(b@).len() == b@.len(),
            forall|k: int| 0 <= k < a@.len() ==> tys(a@)[k] == ty_view(a@[k]),
            forall|k: int| 0 <= k < b@.len() ==> tys(b@)[k] == ty_view(b@[k]),
        decreases a@.len() - i,
    {
        if !ty_eq(&a[i], &b[i]) {
            proof {
                assert(tys(a@)[i as int] != tys(b@)[i as int]);
            }
            return false;
        }
        i = i + 1;
    }
    proof {
        assert(tys(a@) =~= tys(b@));
    }
    true
}

/// Structural equality of two parameters.
pub fn param_eq(a: &Param, b: &Param) -> (r: bool)
    ensures
        r == (a@ == b@),
    decreases *a,
{
    a.0 == b.0 && ty_eq(&a.1, &b.1)
}

/// Structural equality of two parameter lists.
pub fn param_vec_eq(a: &Vec<Param>, b: &Vec<Param>) -> (r: bool)
    ensures
        r == (params(a@) == params(b@)),
    decreases *a,
{
    proof {
        lemma_params(a@);
        lemma_params(b@);
    }
    if a.len() != b.len() {
        return false;
    }
    let mut i: usize = 0;
    while i < a.len()
        invariant
            0 <= i <= a.len(),
            a@.len() == b@.len(),
            forall|k: int| 0 <= k < i ==> params(a@)[k] == params(b@)[k],
            params(a@).len() == a@.len(),
            params(b@).len() == b@.len(),
            forall|k: int| 0 <= k < a@.len() ==> params(a@)[k] == a@[k]@,
            forall|k: int| 0 <= k < b@.len() ==> params(b@)[k] == b@[k]@,
        decreases a@.len() - i,
    {
        if !param_eq(&a[i], &b[i]) {
            proof {
                assert(params(a@)[i as int] != params(b@)[i as int]);
            }
            return false;
        }
        i = i + 1;
    }
    proof {
        assert(params(a@) =~= params(b@));
    }
    true
}

/// Whether a type sequence holds a structurally equal copy of a type.
pub fn contains_ty(v: &Vec<Ty>, t: &Ty) -> (r: bool)
    ensures
        r == tys(v@).contains(t@),
{
    proof {
        lemma_tys(v@);
    }
    let mut i: usize = 0;
    while i < v.len()
        invariant
            0 <= i <= v.len(),
            forall|k: int| 0 <= k < i ==> tys(v@)[k] != t@,
            tys(v@).len() == v@.len(),
            forall|k: int| 0 <= k < v@.len() ==> tys(v@)[k] == ty_view(v@[k]),
        decreases v@.len() - i,
    {
        if ty_eq(&v[i], t) {
            proof {
                assert(tys(v@)[i as int] == t@);
            }
            return true;
        }
        i = i + 1;
    }
    proof {
        assert(!tys(v@).contains(t@));
    }
    false
}

} // verus!
