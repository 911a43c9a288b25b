//! The evaluator-facing expression tree: every node carries a type tag, and
//! every name is already resolved to a builtin or to a user-defined name.

use crate::builtin::BuiltinName;
use crate::ty::{Ty, TyView};
use std::sync::Arc;
use vstd::prelude::*;

verus! {

/// A payload together with its type tag.
#[derive(Debug)]
pub struct N<T> {
    pub t: Arc<T>,
    pub ty: Ty,
}

/// `Arc::clone` hands out another pointer to the same allocation, so the
/// value behind the result is the value behind the argument.
#[verifier::external_body]
fn share<T>(a: &Arc<T>) -> (r: Arc<T>)
    ensures
        r == *a,
{
    a.clone()
}

impl<T> N<T> {
    /// Wraps `t` with the tag `ty`.
    pub fn new(t: T, ty: Ty) -> (n: Self)
        ensures
            *n.t == t,
            n.ty == ty,
    {
        Self { t: Arc::new(t), ty }
    }
}

impl<T> Clone for N<T> {
    fn clone(&self) -> (r: Self)
        ensures
            r.t == self.t,
            r.ty@ == self.ty@,
    {
        N { t: share(&self.t), ty: self.ty.clone() }
    }
}

impl<T> std::ops::Deref for N<T> {
    type Target = T;

    fn deref(&self) -> (r: &T)
        ensures
            *r == *self.t,
    {
        &self.t
    }
}

/// A user-defined name.
#[derive(Debug, Hash, PartialEq, Eq)]
pub struct NameDef(pub String);

impl View for NameDef {
    type V = Seq<char>;

    open spec fn view(&self) -> Seq<char> {
        self.0@
    }
}

impl Clone for NameDef {
    fn clone(&self) -> (r: Self)
        ensures
            r@ == self@,
    {
        NameDef(self.0.clone())
    }
}

/// A program: its top-level definitions, in order.
pub struct Prog {
    pub bindings: Vec<N<Binding>>,
}

/// A function literal: its parameters in order, the names it refers to from
/// the enclosing scope, and its body.
#[derive(Debug)]
pub struct Lambda {
    pub bound: Vec<N<NameDef>>,
    pub free: Vec<N<NameDef>>,
    pub body: Ex,
}

/// A definition `name = ex`.
#[derive(Debug)]
pub struct Binding {
    pub name: N<NameDef>,
    pub ex: Ex,
}

/// The application of `ex` to `args`.
#[derive(Debug)]
pub struct Application {
    pub ex: Ex,
    pub args: Vec<Ex>,
}

/// A conditional expression.
#[derive(Debug)]
pub struct Condition {
    pub pred: Ex,
    pub thn: Ex,
    pub els: Ex,
}

/// A typed expression.
#[derive(Debug)]
pub enum Ex {
    Bind(N<Binding>),
    Lam(N<Lambda>),
    Ap(N<Application>),
    Cond(N<Condition>),
    URef(N<NameDef>),
    BRef(N<BuiltinName>),
    ConstInt(i64),
    ConstBool(bool),
}

/// The mathematical value of a tagged name.
pub struct NameView {
    pub name: Seq<char>,
    pub ty: TyView,
}

/// The mathematical value of a typed expression.
pub enum ExView {
    Bind { name: NameView, ex: Box<ExView>, ty: TyView },
    Lam { bound: Seq<NameView>, free: Seq<NameView>, body: Box<ExView>, ty: TyView },
    Ap { ex: Box<ExView>, args: Seq<ExView>, ty: TyView },
    Cond { pred: Box<ExView>, thn: Box<ExView>, els: Box<ExView>, ty: TyView },
    URef(NameView),
    BRef(NameView),
    ConstInt(i64),
    ConstBool(bool),
}

/// The value of a tagged user-defined name.
pub open spec fn name_view(n: N<NameDef>) -> NameView {
    NameView { name: n.t@, ty: n.ty@ }
}

/// The values of a list of tagged names, in order.
pub open spec fn name_views(names: Seq<N<NameDef>>) -> Seq<NameView> {
    Seq::new(names.len(), |i: int| name_view(names[i]))
}

impl Ex {
    /// The mathematical value of this expression.
    pub open spec fn model(self) -> ExView
        decreases self,
    {
        match self {
            Ex::Bind(n) => ExView::Bind {
                name: name_view(n.t.name),
                ex: Box::new(n.t.ex.model()),
                ty: n.ty@,
            },
            Ex::Lam(n) => ExView::Lam {
                bound: name_views(n.t.bound@),
                free: name_views(n.t.free@),
                body: Box::new(n.t.body.model()),
                ty: n.ty@,
            },
            Ex::Ap(n) => ExView::Ap {
                ex: Box::new(n.t.ex.model()),
                args: Seq::new(
                    n.t.args.len() as nat,
                    |i: int|
                        if 0 <= i < n.t.args.len() {
                            n.t.args[i].model()
                        } else {
                            ExView::ConstBool(false)
                        },
                ),
                ty: n.ty@,
            },
            Ex::Cond(n) => ExView::Cond {
                pred: Box::new(n.t.pred.model()),
                thn: Box::new(n.t.thn.model()),
                els: Box::new(n.t.els.model()),
                ty: n.ty@,
            },
            Ex::URef(n) => ExView::URef(name_view(n)),
            Ex::BRef(n) => ExView::BRef(NameView { name: n.t@, ty: n.ty@ }),
            Ex::ConstInt(i) => ExView::ConstInt(i),
            Ex::ConstBool(b) => ExView::ConstBool(b),
        }
    }
}

impl View for Ex {
    type V = ExView;

    open spec fn view(&self) -> ExView {
        self.model()
    }
}

impl ExView {
    /// The type tag that the expression carries.
    pub open spec fn ty(self) -> TyView {
        match self {
            ExView::Bind { ty, .. } => ty,
            ExView::Lam { ty, .. } => ty,
            ExView::Ap { ty, .. } => ty,
            ExView::Cond { ty, .. } => ty,
            ExView::URef(n) => n.ty,
            ExView::BRef(n) => n.ty,
            ExView::ConstInt(_) => TyView::Int,
            ExView::ConstBool(_) => TyView::Bool,
        }
    }
}

impl Ex {
    /// The type tag of this expression: the one its node carries, and `Int`
    /// or `Bool` for a constant.
    pub fn ty(&self) -> (t: &Ty)
        ensures
            t@ == self@.ty(),
    {
        match self {
            Ex::Bind(n) => &n.ty,
            Ex::Lam(n) => &n.ty,
            Ex::Ap(n) => &n.ty,
            Ex::Cond(n) => &n.ty,
            Ex::URef(r) => &r.ty,
            Ex::BRef(r) => &r.ty,
            Ex::ConstInt(_) => &Ty::Int,
            Ex::ConstBool(_) => &Ty::Bool,
        }
    }
}

impl From<N<NameDef>> for Ex {
    fn from(v: N<NameDef>) -> (r: Self) {
        Ex::URef(v)
    }
}

impl vstd::std_specs::convert::FromSpecImpl<N<NameDef>> for Ex {
    open spec fn obeys_from_spec() -> bool {
        true
    }

    open spec fn from_spec(v: N<NameDef>) -> Self {
        Ex::URef(v)
    }
}

impl From<N<BuiltinName>> for Ex {
    fn from(v: N<BuiltinName>) -> (r: Self) {
        Ex::BRef(v)
    }
}

impl vstd::std_specs::convert::FromSpecImpl<N<BuiltinName>> for Ex {
    open spec fn obeys_from_spec() -> bool {
        true
    }

    open spec fn from_spec(v: N<BuiltinName>) -> Self {
        Ex::BRef(v)
    }
}

impl From<N<Condition>> for Ex {
    fn from(v: N<Condition>) -> (r: Self) {
        Ex::Cond(v)
    }
}

impl vstd::std_specs::convert::FromSpecImpl<N<Condition>> for Ex {
    open spec fn obeys_from_spec() -> bool {
        true
    }

    open spec fn from_spec(v: N<Condition>) -> Self {
        Ex::Cond(v)
    }
}

impl From<N<Application>> for Ex {
    fn from(v: N<Application>) -> (r: Self) {
        Ex::Ap(v)
    }
}

impl vstd::std_specs::convert::FromSpecImpl<N<Application>> for Ex {
    open spec fn obeys_from_spec() -> bool {
        true
    }

    open spec fn from_spec(v: N<Application>) -> Self {
        Ex::Ap(v)
    }
}

impl From<N<Lambda>> for Ex {
    fn from(v: N<Lambda>) -> (r: Self) {
        Ex::Lam(v)
    }
}

impl vstd::std_specs::convert::FromSpecImpl<N<Lambda>> for Ex {
    open spec fn obeys_from_spec() -> bool {
        true
    }

    open spec fn from_spec(v: N<Lambda>) -> Self {
        Ex::Lam(v)
    }
}

impl From<N<Binding>> for Ex {
    fn from(v: N<Binding>) -> (r: Self) {
        Ex::Bind(v)
    }
}

impl vstd::std_specs::convert::FromSpecImpl<N<Binding>> for Ex {
    open spec fn obeys_from_spec() -> bool {
        true
    }

    open spec fn from_spec(v: N<Binding>) -> Self {
        Ex::Bind(v)
    }
}

/// The values of a list of expressions, in order.
pub open spec fn ex_views(exs: Seq<Ex>) -> Seq<ExView> {
    Seq::new(exs.len(), |i: int| exs[i]@)
}

impl Clone for Ex {
    fn clone(&self) -> (r: Self)
        ensures
            r@ == self@,
    {
        match self {
            Ex::Bind(n) => Ex::Bind(n.clone()),
            Ex::Lam(n) => Ex::Lam(n.clone()),
            Ex::Ap(n) => Ex::Ap(n.clone()),
            Ex::Cond(n) => Ex::Cond(n.clone()),
            Ex::URef(n) => Ex::URef(n.clone()),
            Ex::BRef(n) => Ex::BRef(n.clone()),
            Ex::ConstInt(i) => Ex::ConstInt(*i),
            Ex::ConstBool(b) => Ex::ConstBool(*b),
        }
    }
}

} // verus!
