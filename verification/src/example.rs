//! Small programs of the evaluator's language, built by hand.

use crate::builtin::{builtin_ty, BuiltinDefs, BuiltinName};
use crate::tast::{ex_views, name_view, name_views, Application, Binding, Condition, Ex, ExView, Lambda, NameDef, NameView, N};
use crate::ty::{Ty, TyView};
use vstd::prelude::*;
use vstd::string::*;

verus! {

/// The type of a function from an integer to an integer.
pub open spec fn int_to_int() -> TyView {
    TyView::F { par: seq![TyView::Int], ret: Box::new(TyView::Int) }
}

/// The reference to the builtin operation `name`, with its declared type.
pub open spec fn builtin(name: Seq<char>) -> ExView {
    ExView::BRef(NameView { name, ty: builtin_ty(name) })
}

/// The reference to the integer `n`.
pub open spec fn n_ref() -> ExView {
    ExView::URef(NameView { name: "n"@, ty: TyView::Int })
}

/// The name `fib`, of a function from an integer to an integer.
pub open spec fn fib_name() -> NameView {
    NameView { name: "fib"@, ty: int_to_int() }
}

/// The name `inc`, of a function from an integer to an integer.
pub open spec fn inc_name() -> NameView {
    NameView { name: "inc"@, ty: int_to_int() }
}

/// The application of `callee` to `args`, of the type `ty`.
pub open spec fn call(callee: ExView, args: Seq<ExView>, ty: TyView) -> ExView {
    ExView::Ap { ex: Box::new(callee), args, ty }
}

/// `fib(n - k)`.
pub open spec fn fib_of_n_minus(k: i64) -> ExView {
    call(
        ExView::URef(fib_name()),
        seq![call(builtin("minus"@), seq![n_ref(), ExView::ConstInt(k)], TyView::Int)],
        TyView::Int,
    )
}

/// The function `λ(n). if n < 2 then 1 else fib(n - 1) + fib(n - 2)`.
pub open spec fn fibonacci_lambda() -> ExView {
    ExView::Lam {
        bound: seq![NameView { name: "n"@, ty: TyView::Int }],
        free: Seq::empty(),
        body: Box::new(
            ExView::Cond {
                pred: Box::new(
                    call(builtin("less"@), seq![n_ref(), ExView::ConstInt(2)], TyView::Bool),
                ),
                thn: Box::new(ExView::ConstInt(1)),
                els: Box::new(
                    call(
                        builtin("plus"@),
                        seq![fib_of_n_minus(1), fib_of_n_minus(2)],
                        TyView::Int,
                    ),
                ),
                ty: TyView::Int,
            },
        ),
        ty: int_to_int(),
    }
}

/// The function `λ(n). n + 1`.
pub open spec fn inc_lambda() -> ExView {
    ExView::Lam {
        bound: seq![NameView { name: "n"@, ty: TyView::Int }],
        free: Seq::empty(),
        body: Box::new(call(builtin("plus"@), seq![n_ref(), ExView::ConstInt(1)], TyView::Int)),
        ty: int_to_int(),
    }
}

/// The definition of `name` as `ex`, of the type `ty`.
pub open spec fn definition(name: NameView, ex: ExView, ty: TyView) -> ExView {
    ExView::Bind { name, ex: Box::new(ex), ty }
}

/// The application of `ex` to `args`, of the type `ty`.
fn ap(ex: Ex, args: Vec<Ex>, ty: Ty) -> (r: Ex)
    ensures
        r@ == call(ex@, ex_views(args@), ty@),
{
    let r = Ex::Ap(N::new(Application { ex, args }, ty));
    assert(r@->Ap_args =~= ex_views(args@));
    r
}

/// The list of the one argument `a`.
fn args_1(a: Ex) -> (v: Vec<Ex>)
    ensures
        ex_views(v@) == seq![a@],
{
    let mut v: Vec<Ex> = Vec::new();
    v.push(a);
    v
}

/// The list of the two arguments `a` and `b`.
fn args_2(a: Ex, b: Ex) -> (v: Vec<Ex>)
    ensures
        ex_views(v@) == seq![a@, b@],
{
    let mut v: Vec<Ex> = Vec::new();
    v.push(a);
    v.push(b);
    v
}

/// The name `text` with the type `ty`.
fn name(text: &str, ty: Ty) -> (n: N<NameDef>)
    ensures
        name_view(n) == (NameView { name: text@, ty: ty@ }),
{
    N::new(NameDef(text.to_owned()), ty)
}

/// The function of the one integer parameter `n` with the body `body`.
fn lambda_of_n(body: Ex) -> (r: Lambda)
    ensures
        name_views(r.bound@) == seq![NameView { name: "n"@, ty: TyView::Int }],
        name_views(r.free@) == Seq::<NameView>::empty(),
        r.body@ == body@,
{
    let mut bound: Vec<N<NameDef>> = Vec::new();
    bound.push(name("n", Ty::Int));
    let r = Lambda { bound, free: Vec::new(), body };
    r
}

/// The reference to the builtin operation of the entry `entry`.
fn bref(entry: &N<BuiltinName>) -> (r: Ex)
    ensures
        r@ == ExView::BRef(NameView { name: entry.t@, ty: entry.ty@ }),
{
    Ex::BRef(entry.clone())
}

/// `fib(n - k)`.
fn fib_call(defs: &BuiltinDefs, k: i64) -> (r: Ex)
    requires
        defs.wf(),
    ensures
        r@ == fib_of_n_minus(k),
{
    proof {
        crate::builtin::lemma_builtin_names_differ();
    }
    let fib = name("fib", Ty::mk_func_1(Ty::Int, Ty::Int));
    let n = name("n", Ty::Int);
    let less_one = ap(bref(&defs.minus), args_2(Ex::URef(n), Ex::ConstInt(k)), Ty::Int);
    ap(Ex::URef(fib), args_1(less_one), Ty::Int)
}

/// The definition of the Fibonacci function:
/// `fib = λ(n). if n < 2 then 1 else fib(n - 1) + fib(n - 2)`.
pub fn fibonacci() -> (b: Binding)
    ensures
        name_view(b.name) == fib_name(),
        b.ex@ == fibonacci_lambda(),
{
    proof {
        crate::builtin::lemma_builtin_names_differ();
    }
    let defs = BuiltinDefs::new();
    let fib = name("fib", Ty::mk_func_1(Ty::Int, Ty::Int));
    let n = name("n", Ty::Int);
    let pred = ap(bref(&defs.less), args_2(Ex::URef(n), Ex::ConstInt(2)), Ty::Bool);
    let one = Ex::ConstInt(1);
    let els = ap(bref(&defs.plus), args_2(fib_call(&defs, 1), fib_call(&defs, 2)), Ty::Int);
    assert(one@ == ExView::ConstInt(1));
    let body = Ex::Cond(N::new(Condition { pred, thn: one, els }, Ty::Int));
    let lam = lambda_of_n(body);
    let lam_ty = Ty::mk_func_1(Ty::Int, Ty::Int);
    Binding { name: fib, ex: Ex::Lam(N::new(lam, lam_ty)) }
}

/// The definition of the Fibonacci function, as an expression.
pub fn fibonacci_ex() -> (r: Ex)
    ensures
        r@ == definition(fib_name(), fibonacci_lambda(), int_to_int()),
{
    let binding = fibonacci();
    let ty = Ty::mk_func_1(Ty::Int, Ty::Int);
    Ex::Bind(N::new(binding, ty))
}

/// The application `fib(n)`.
pub fn fibonacci_ap_n(n: i64) -> (r: Ex)
    ensures
        r@ == call(ExView::URef(fib_name()), seq![ExView::ConstInt(n)], TyView::Int),
{
    let fib = name("fib", Ty::mk_func_1(Ty::Int, Ty::Int));
    ap(Ex::URef(fib), args_1(Ex::ConstInt(n)), Ty::Int)
}

/// The definition `n = 42`.
pub fn const_binding() -> (b: Binding)
    ensures
        name_view(b.name) == (NameView { name: "n"@, ty: TyView::Int }),
        b.ex@ == ExView::ConstInt(42),
{
    let name = name("n", Ty::Int);
    Binding { name, ex: Ex::ConstInt(42) }
}

/// The definition `n = 42`, as an expression.
pub fn const_binding_ex() -> (r: Ex)
    ensures
        r@ == definition(
            NameView { name: "n"@, ty: TyView::Int },
            ExView::ConstInt(42),
            TyView::Int,
        ),
{
    let binding = const_binding();
    Ex::Bind(N::new(binding, Ty::Int))
}

/// The definition of the successor function: `inc = λ(n). n + 1`.
pub fn inc_binding() -> (b: Binding)
    ensures
        name_view(b.name) == inc_name(),
        b.ex@ == inc_lambda(),
{
    proof {
        crate::builtin::lemma_builtin_names_differ();
    }
    let defs = BuiltinDefs::new();
    let n = name("n", Ty::Int);
    let body = ap(bref(&defs.plus), args_2(Ex::URef(n), Ex::ConstInt(1)), Ty::Int);
    let lam = lambda_of_n(body);
    let ty = Ty::mk_func_1(Ty::Int, Ty::Int);
    Binding { name: name("inc", ty.clone()), ex: Ex::Lam(N::new(lam, ty)) }
}

/// The definition of the successor function, as an expression.
pub fn inc_ex() -> (r: Ex)
    ensures
        r@ == definition(inc_name(), inc_lambda(), int_to_int()),
{
    let ty = Ty::mk_func_1(Ty::Int, Ty::Int);
    Ex::Bind(N::new(inc_binding(), ty))
}

/// The application `inc(n)`.
pub fn inc_ap_n(n: i64) -> (r: Ex)
    ensures
        r@ == call(ExView::URef(inc_name()), seq![ExView::ConstInt(n)], TyView::Int),
{
    let ty = Ty::mk_func_1(Ty::Int, Ty::Int);
    ap(Ex::URef(name("inc", ty)), args_1(Ex::ConstInt(n)), Ty::Int)
}

/// The application `inc(inc(n))`.
pub fn incinc_ap_n(n: i64) -> (r: Ex)
    ensures
        r@ == call(
            ExView::URef(inc_name()),
            seq![call(ExView::URef(inc_name()), seq![ExView::ConstInt(n)], TyView::Int)],
            TyView::Int,
        ),
{
    let ty = Ty::mk_func_1(Ty::Int, Ty::Int);
    let inc_ref = name("inc", ty);
    let app = ap(Ex::URef(inc_ref.clone()), args_1(Ex::ConstInt(n)), Ty::Int);
    ap(Ex::URef(inc_ref.clone()), args_1(app), Ty::Int)
}

} // verus!
