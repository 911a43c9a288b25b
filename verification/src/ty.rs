//! Type tags attached to evaluator-facing expression nodes.

use vstd::prelude::*;

verus! {

/// A descriptive type tag: an integer, a boolean, or a function from an
/// ordered list of parameter types to one return type.
#[derive(Debug)]
pub enum Ty {
    Int,
    Bool,
    F { par: Vec<Ty>, ret: Box<Ty> },
}

/// The mathematical value of a type tag.
pub enum TyView {
    Int,
    Bool,
    F { par: Seq<TyView>, ret: Box<TyView> },
}

impl Ty {
    /// The mathematical value of this tag.
    pub open spec fn model(self) -> TyView
        decreases self,
    {
        match self {
            Ty::Int => TyView::Int,
            Ty::Bool => TyView::Bool,
            Ty::F { par, ret } => TyView::F {
                par: Seq::new(
                    par.len() as nat,
                    |i: int|
                        if 0 <= i < par.len() {
                            par[i].model()
                        } else {
                            TyView::Int
                        },
                ),
                ret: Box::new(ret.model()),
            },
        }
    }
}

impl View for Ty {
    type V = TyView;

    open spec fn view(&self) -> TyView {
        self.model()
    }
}

/// The views of a list of type tags, in order.
pub open spec fn ty_views(tys: Seq<Ty>) -> Seq<TyView> {
    Seq::new(tys.len(), |i: int| tys[i]@)
}

impl Clone for Ty {
    #[verifier::loop_isolation(false)]
    fn clone(&self) -> (r: Self)
        ensures
            r@ == self@,
        decreases self,
    {
        match self {
            Ty::Int => Ty::Int,
            Ty::Bool => Ty::Bool,
            Ty::F { par, ret } => {
                let mut copy: Vec<Ty> = Vec::new();
                let mut i: usize = 0;
                while i < par.len()
                    invariant
                        i <= par.len(),
                        copy.len() == i,
                        forall|j: int| 0 <= j < i ==> copy[j]@ == par[j]@,
                    decreases par.len() - i,
                {
                    copy.push(par[i].clone());
                    i += 1;
                }
                let r = Ty::F { par: copy, ret: Box::new((**ret).clone()) };
                assert(r@->par =~= self@->par);
                r
            },
        }
    }
}

impl Ty {
    /// The function type with the given parameter types, in order, and return type.
    pub fn mk_func_n(par: Vec<Ty>, ret: Ty) -> (t: Ty)
        ensures
            t@ == (TyView::F { par: ty_views(par@), ret: Box::new(ret@) }),
    {
        let ret = Box::new(ret);
        let t = Ty::F { par, ret };
        assert(t@->par =~= ty_views(par@));
        t
    }

    /// The type of a function of one parameter.
    pub fn mk_func_1(par: Ty, ret: Ty) -> (t: Ty)
        ensures
            t@ == (TyView::F { par: seq![par@], ret: Box::new(ret@) }),
    {
        let mut pars: Vec<Ty> = Vec::new();
        pars.push(par);
        let t = Ty::F { par: pars, ret: Box::new(ret) };
        assert(t@->par =~= seq![par@]);
        t
    }

    /// The type of a function of two parameters.
    pub fn mk_func_2(par_1: Ty, par_2: Ty, ret: Ty) -> (t: Ty)
        ensures
            t@ == (TyView::F { par: seq![par_1@, par_2@], ret: Box::new(ret@) }),
    {
        let mut pars: Vec<Ty> = Vec::new();
        pars.push(par_1);
        pars.push(par_2);
        let t = Ty::F { par: pars, ret: Box::new(ret) };
        assert(t@->par =~= seq![par_1@, par_2@]);
        t
    }
}

} // verus!
