//! The fixed table of primitive operations.

use crate::tast::N;
use crate::text::str_eq;
use crate::ty::{Ty, TyView};
use vstd::prelude::*;

verus! {

/// The name of a builtin operation.
pub type BuiltinName = &'static str;

/// The table of builtin operations: each entry holds the operation's name
/// and its declared type.
pub struct BuiltinDefs {
    pub plus: N<BuiltinName>,
    pub minus: N<BuiltinName>,
    pub less: N<BuiltinName>,
}

/// The type `(Int, Int) -> Int` of the arithmetic operations.
pub open spec fn arith_ty() -> TyView {
    TyView::F { par: seq![TyView::Int, TyView::Int], ret: Box::new(TyView::Int) }
}

/// The type `(Int, Int) -> Bool` of the comparisons.
pub open spec fn relation_ty() -> TyView {
    TyView::F { par: seq![TyView::Int, TyView::Int], ret: Box::new(TyView::Bool) }
}

/// Whether `name` is the name of a builtin operation.
pub open spec fn is_builtin(name: Seq<char>) -> bool {
    name == "plus"@ || name == "minus"@ || name == "less"@
}

/// The declared type of the builtin operation `name`.
pub open spec fn builtin_ty(name: Seq<char>) -> TyView {
    if name == "less"@ {
        relation_ty()
    } else {
        arith_ty()
    }
}

/// The number of parameters that a type declares: those of a function
/// type, and none for any other.
pub open spec fn declared_arity(ty: TyView) -> nat {
    match ty {
        TyView::F { par, .. } => par.len(),
        _ => 0,
    }
}

/// The number of arguments that the builtin operation `name` takes.
pub open spec fn builtin_arity(name: Seq<char>) -> nat {
    declared_arity(builtin_ty(name))
}

impl N<BuiltinName> {
    /// The number of parameters that the type of this entry declares.
    pub fn arity(&self) -> (n: usize)
        ensures
            n == declared_arity(self.ty@),
    {
        match &self.ty {
            Ty::F { par, .. } => par.len(),
            _ => 0,
        }
    }
}

/// The names of the three builtin operations are three different texts.
pub proof fn lemma_builtin_names_differ()
    ensures
        "plus"@ != "minus"@,
        "plus"@ != "less"@,
        "minus"@ != "less"@,
{
    reveal_strlit("plus");
    reveal_strlit("minus");
    reveal_strlit("less");
    assert("minus"@[0] == 'm');
    assert("less"@[0] == 'l');
}

impl BuiltinDefs {
    /// The table of the three operations `plus`, `minus` and `less`.
    pub fn new() -> (b: Self)
        ensures
            b.wf(),
    {
        let relation_type = Ty::mk_func_2(Ty::Int, Ty::Int, Ty::Bool);
        let less = N::new("less", relation_type);
        let plus = N::new("plus", Ty::mk_func_2(Ty::Int, Ty::Int, Ty::Int));
        let minus = N::new("minus", Ty::mk_func_2(Ty::Int, Ty::Int, Ty::Int));
        BuiltinDefs { plus, minus, less }
    }

    /// Each entry holds its own name and declared type.
    pub open spec fn wf(self) -> bool {
        &&& self.plus.t@ == "plus"@
        &&& self.plus.ty@ == arith_ty()
        &&& self.minus.t@ == "minus"@
        &&& self.minus.ty@ == arith_ty()
        &&& self.less.t@ == "less"@
        &&& self.less.ty@ == relation_ty()
    }

    /// The entry of the operation called `name`, if there is one.
    pub fn lookup_by_name(&self, name: &str) -> (r: Option<&N<BuiltinName>>)
        requires
            self.wf(),
        ensures
            r == (if name@ == "plus"@ {
                Some(&self.plus)
            } else if name@ == "minus"@ {
                Some(&self.minus)
            } else if name@ == "less"@ {
                Some(&self.less)
            } else {
                None
            }),
            r is Some <==> is_builtin(name@),
            r matches Some(entry) ==> entry.t@ == name@ && entry.ty@ == builtin_ty(name@),
    {
        proof {
            lemma_builtin_names_differ();
        }
        if str_eq(name, "plus") {
            Some(&self.plus)
        } else if str_eq(name, "minus") {
            Some(&self.minus)
        } else if str_eq(name, "less") {
            Some(&self.less)
        } else {
            None
        }
    }
}

} // verus!
