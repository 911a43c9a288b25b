use fang::builtin::BuiltinDefs;
use fang::example::{
    const_binding, const_binding_ex, fibonacci, fibonacci_ap_n, fibonacci_ex, inc_ap_n, inc_binding,
    inc_ex, incinc_ap_n,
};
use fang::interp::{eval_builtin, eval_ex, Env, Fault};
use fang::tast::{Application, Binding, Condition, Ex, Lambda, NameDef, N};
use fang::ty::Ty;

const DEPTH: usize = 1_000;

fn name(text: &str, ty: Ty) -> N<NameDef> {
    N::new(NameDef(text.to_string()), ty)
}

fn uref(text: &str) -> Ex {
    Ex::URef(name(text, Ty::Int))
}

fn ap(callee: Ex, args: Vec<Ex>) -> Ex {
    Ex::Ap(N::new(Application { ex: callee, args }, Ty::Int))
}

fn cond(pred: Ex, thn: Ex, els: Ex) -> Ex {
    Ex::Cond(N::new(Condition { pred, thn, els }, Ty::Int))
}

fn lambda(params: &[&str], body: Ex) -> Ex {
    let bound = params.iter().map(|p| name(p, Ty::Int)).collect();
    Ex::Lam(N::new(Lambda { bound, free: vec![], body }, Ty::Int))
}

fn builtin(which: &str) -> Ex {
    let defs = BuiltinDefs::new();
    Ex::BRef(defs.lookup_by_name(which).unwrap().clone())
}

fn with_binding(env: &Env, b: Binding) -> Env {
    env.bind(&b.name.t, b.ex)
}

fn int_of(r: Result<Ex, Fault>) -> i64 {
    match r {
        Ok(Ex::ConstInt(n)) => n,
        other => panic!("not an integer: {:?}", other),
    }
}

fn fault_of(r: Result<Ex, Fault>) -> Fault {
    match r {
        Err(f) => f,
        Ok(v) => panic!("not a fault: {:?}", v),
    }
}

#[test]
fn constant_evaluates_to_itself() {
    let empty = Env::new();
    assert_eq!(int_of(eval_ex(Ex::ConstInt(5), &empty, DEPTH)), 5);
    assert_eq!(int_of(eval_ex(Ex::ConstInt(5), &empty, 0)), 5);
    let other = empty.bind(&NameDef("x".to_string()), Ex::ConstBool(true));
    assert_eq!(int_of(eval_ex(Ex::ConstInt(5), &other, DEPTH)), 5);
    assert!(matches!(eval_ex(Ex::ConstBool(false), &other, DEPTH), Ok(Ex::ConstBool(false))));
}

#[test]
fn less_of_one_and_two_is_true() {
    let e = ap(builtin("less"), vec![Ex::ConstInt(1), Ex::ConstInt(2)]);
    assert!(matches!(eval_ex(e, &Env::new(), DEPTH), Ok(Ex::ConstBool(true))));
    let e = ap(builtin("less"), vec![Ex::ConstInt(2), Ex::ConstInt(2)]);
    assert!(matches!(eval_ex(e, &Env::new(), DEPTH), Ok(Ex::ConstBool(false))));
}

#[test]
fn plus_and_minus_compute() {
    let e = ap(builtin("plus"), vec![Ex::ConstInt(40), Ex::ConstInt(2)]);
    assert_eq!(int_of(eval_ex(e, &Env::new(), DEPTH)), 42);
    let e = ap(builtin("minus"), vec![Ex::ConstInt(40), Ex::ConstInt(2)]);
    assert_eq!(int_of(eval_ex(e, &Env::new(), DEPTH)), 38);
    let e = ap(builtin("minus"), vec![Ex::ConstInt(i64::MIN + 1), Ex::ConstInt(1)]);
    assert_eq!(int_of(eval_ex(e, &Env::new(), DEPTH)), i64::MIN);
}

#[test]
fn fibonacci_by_recursion() {
    let env = with_binding(&Env::new(), fibonacci());
    assert_eq!(int_of(eval_ex(fibonacci_ap_n(0), &env, DEPTH)), 1);
    assert_eq!(int_of(eval_ex(fibonacci_ap_n(1), &env, DEPTH)), 1);
    assert_eq!(int_of(eval_ex(fibonacci_ap_n(2), &env, DEPTH)), 2);
    assert_eq!(int_of(eval_ex(fibonacci_ap_n(3), &env, DEPTH)), 3);
    assert_eq!(int_of(eval_ex(fibonacci_ap_n(9), &env, DEPTH)), 55);
    assert_eq!(int_of(eval_ex(fibonacci_ap_n(10), &env, DEPTH)), 89);
}

#[test]
fn fibonacci_definition_evaluates_to_its_function() {
    assert!(matches!(eval_ex(fibonacci_ex(), &Env::new(), DEPTH), Ok(Ex::Lam(_))));
}

#[test]
fn constant_definition_evaluates_to_its_value() {
    assert_eq!(int_of(eval_ex(const_binding_ex(), &Env::new(), DEPTH)), 42);
    let b = const_binding();
    assert_eq!(b.name.t.0, "n");
}

#[test]
fn successor_examples() {
    let env = with_binding(&Env::new(), inc_binding());
    assert_eq!(int_of(eval_ex(inc_ap_n(41), &env, DEPTH)), 42);
    assert_eq!(int_of(eval_ex(incinc_ap_n(40), &env, DEPTH)), 42);
    assert!(matches!(eval_ex(inc_ex(), &Env::new(), DEPTH), Ok(Ex::Lam(_))));
}

#[test]
fn conditional_leaves_the_other_branch_alone() {
    let faulty = uref("nowhere");
    let e = cond(Ex::ConstBool(true), Ex::ConstInt(1), faulty);
    assert_eq!(int_of(eval_ex(e, &Env::new(), DEPTH)), 1);
    let faulty = ap(Ex::ConstInt(3), vec![]);
    let e = cond(Ex::ConstBool(false), faulty, Ex::ConstInt(2));
    assert_eq!(int_of(eval_ex(e, &Env::new(), DEPTH)), 2);
}

#[test]
fn rebinding_leaves_the_base_environment() {
    let x = NameDef("x".to_string());
    let e1 = Env::new();
    let e2 = e1.bind(&x, Ex::ConstInt(1));
    let e3 = e2.bind(&x, Ex::ConstInt(2));
    assert!(matches!(e3.find(&x), Some(Ex::ConstInt(2))));
    assert!(matches!(e2.find(&x), Some(Ex::ConstInt(1))));
    assert!(e1.find(&x).is_none());
    let copy = e2.clone();
    assert!(matches!(copy.find(&x), Some(Ex::ConstInt(1))));
}

#[test]
fn bind_many_binds_in_order() {
    let x = NameDef("x".to_string());
    let y = NameDef("y".to_string());
    let base = Env::new().bind(&y, Ex::ConstInt(0));
    let env = base.bind_many(&[&x, &y, &x], &[Ex::ConstInt(1), Ex::ConstInt(2), Ex::ConstInt(3)]);
    assert!(matches!(env.find(&x), Some(Ex::ConstInt(3))));
    assert!(matches!(env.find(&y), Some(Ex::ConstInt(2))));
    assert!(matches!(base.find(&y), Some(Ex::ConstInt(0))));
    assert!(base.find(&x).is_none());
}

#[test]
fn arity_mismatch_is_a_fault() {
    let add = lambda(&["a", "b"], ap(builtin("plus"), vec![uref("a"), uref("b")]));
    let one = ap(add.clone(), vec![Ex::ConstInt(1)]);
    let f = fault_of(eval_ex(one, &Env::new(), DEPTH));
    assert!(matches!(f, Fault::ArityMismatch { expected: 2, given: 1 }));
    assert_eq!(f.message(), "Wrong number of arguments: expected 2, given 1");
    let three = ap(add.clone(), vec![Ex::ConstInt(1), Ex::ConstInt(2), Ex::ConstInt(3)]);
    let f = fault_of(eval_ex(three, &Env::new(), DEPTH));
    assert!(matches!(f, Fault::ArityMismatch { expected: 2, given: 3 }));
    let two = ap(add, vec![Ex::ConstInt(1), Ex::ConstInt(2)]);
    assert_eq!(int_of(eval_ex(two, &Env::new(), DEPTH)), 3);
}

#[test]
fn each_fault_has_an_input() {
    let env = Env::new();
    let f = fault_of(eval_ex(uref("x"), &env, DEPTH));
    assert!(matches!(&f, Fault::UnknownName(n) if n.t.0 == "x"));
    assert_eq!(f.message(), "Unkown name: Name x: Int");

    let e = ap(builtin("plus"), vec![Ex::ConstBool(true), Ex::ConstInt(1)]);
    let f = fault_of(eval_ex(e, &env, DEPTH));
    assert!(matches!(
        &f,
        Fault::TypeMismatch { op: "plus", lhs: Ex::ConstBool(true), rhs: Ex::ConstInt(1) }
    ));
    assert_eq!(f.message(), "Cannot add \n1: true\n2: 1");
    let e = ap(builtin("minus"), vec![Ex::ConstInt(3), builtin("less")]);
    let f = fault_of(eval_ex(e, &env, DEPTH));
    assert_eq!(
        f.message(),
        "Cannot subtract \n1: 3\n2: BuiltinName less: (Int, Int) -> Bool"
    );
    let e = ap(builtin("less"), vec![Ex::ConstBool(false), Ex::ConstBool(true)]);
    let f = fault_of(eval_ex(e, &env, DEPTH));
    assert_eq!(f.message(), "Cannot compare \n1: false\n2: true");

    let e = ap(builtin("plus"), vec![Ex::ConstInt(1)]);
    let f = fault_of(eval_ex(e, &env, DEPTH));
    assert!(matches!(f, Fault::ArityMismatch { expected: 2, given: 1 }));
    let e = ap(builtin("less"), vec![Ex::ConstInt(1), Ex::ConstInt(2), Ex::ConstInt(3)]);
    let f = fault_of(eval_ex(e, &env, DEPTH));
    assert!(matches!(f, Fault::ArityMismatch { expected: 2, given: 3 }));

    let e = ap(Ex::ConstInt(1), vec![Ex::ConstInt(1)]);
    let f = fault_of(eval_ex(e, &env, DEPTH));
    assert!(matches!(f, Fault::NotApplicable(Ex::ConstInt(1))));
    assert_eq!(f.message(), "Unexpected application expression: 1");

    let e = cond(Ex::ConstInt(7), Ex::ConstInt(1), Ex::ConstInt(2));
    let f = fault_of(eval_ex(e, &env, DEPTH));
    assert!(matches!(f, Fault::NonBoolPredicate(Ex::ConstInt(7))));
    assert_eq!(f.message(), "Unexpected boolean expression: 7");

    let unknown = Ex::BRef(N::new("times", Ty::Int));
    let e = ap(unknown, vec![Ex::ConstInt(1), Ex::ConstInt(2)]);
    let f = fault_of(eval_ex(e, &env, DEPTH));
    assert!(matches!(&f, Fault::UnknownBuiltin(n) if *n.t == "times"));
    assert_eq!(f.message(), "Unknown builtin name: times");

    let e = ap(builtin("plus"), vec![Ex::ConstInt(i64::MAX), Ex::ConstInt(1)]);
    let f = fault_of(eval_ex(e, &env, DEPTH));
    assert!(matches!(f, Fault::Overflow { op: "plus", lhs: i64::MAX, rhs: 1 }));
    assert_eq!(f.message(), "attempt to add with overflow");
    let e = ap(builtin("minus"), vec![Ex::ConstInt(i64::MIN), Ex::ConstInt(1)]);
    let f = fault_of(eval_ex(e, &env, DEPTH));
    assert!(matches!(f, Fault::Overflow { op: "minus", lhs: i64::MIN, rhs: 1 }));
    assert_eq!(f.message(), "attempt to subtract with overflow");
}

#[test]
fn depth_bounds_the_evaluation() {
    let e = ap(builtin("plus"), vec![Ex::ConstInt(1), Ex::ConstInt(2)]);
    let f = fault_of(eval_ex(e.clone(), &Env::new(), 0));
    assert!(matches!(f, Fault::DepthExceeded));
    assert_eq!(f.message(), "Evaluation is nested too deep");
    assert_eq!(int_of(eval_ex(e, &Env::new(), 1)), 3);
    // A function that calls itself without end runs out of depth.
    let forever = lambda(&["n"], ap(uref("loop"), vec![uref("n")]));
    let env = Env::new().bind(&NameDef("loop".to_string()), forever);
    let e = ap(uref("loop"), vec![Ex::ConstInt(0)]);
    assert!(matches!(fault_of(eval_ex(e, &env, 50)), Fault::DepthExceeded));
}

#[test]
fn fault_of_an_argument_comes_before_the_callee_is_judged() {
    let e = ap(Ex::ConstInt(1), vec![uref("missing")]);
    assert!(matches!(fault_of(eval_ex(e, &Env::new(), DEPTH)), Fault::UnknownName(_)));
    let e = ap(uref("f"), vec![uref("missing")]);
    assert!(matches!(
        fault_of(eval_ex(e, &Env::new(), DEPTH)),
        Fault::UnknownName(n) if n.t.0 == "f"
    ));
}

#[test]
fn free_names_resolve_where_the_function_is_called() {
    // `λ(). y` applied where `y` is 7.
    let f = lambda(&[], uref("y"));
    let env = Env::new().bind(&NameDef("y".to_string()), Ex::ConstInt(7));
    assert_eq!(int_of(eval_ex(ap(f.clone(), vec![]), &env, DEPTH)), 7);
    assert!(matches!(
        fault_of(eval_ex(ap(f, vec![]), &Env::new(), DEPTH)),
        Fault::UnknownName(n) if n.t.0 == "y"
    ));
}

#[test]
fn a_user_name_stands_for_what_it_is_bound_to() {
    let env = Env::new().bind(&NameDef("x".to_string()), Ex::ConstInt(9));
    assert_eq!(int_of(eval_ex(uref("x"), &env, DEPTH)), 9);
}

#[test]
fn builtin_dispatch_alone() {
    let defs = BuiltinDefs::new();
    let env = Env::new();
    let r = eval_builtin(&defs.plus, &[Ex::ConstInt(2), Ex::ConstInt(3)], &env);
    assert_eq!(int_of(r), 5);
    let r = eval_builtin(&defs.minus, &[Ex::ConstInt(2), Ex::ConstInt(3)], &env);
    assert_eq!(int_of(r), -1);
    let r = eval_builtin(&defs.less, &[Ex::ConstInt(3), Ex::ConstInt(2)], &env);
    assert!(matches!(r, Ok(Ex::ConstBool(false))));
    let r = eval_builtin(&defs.less, &[Ex::ConstInt(3), Ex::ConstBool(true)], &env);
    assert!(matches!(fault_of(r), Fault::TypeMismatch { op: "less", .. }));
}

#[test]
fn builtin_table_entries() {
    let defs = BuiltinDefs::new();
    assert_eq!(*defs.plus.t, "plus");
    assert_eq!(*defs.minus.t, "minus");
    assert_eq!(*defs.less.t, "less");
    assert_eq!(defs.plus.arity(), 2);
    assert_eq!(defs.less.arity(), 2);
    assert_eq!(N::new("odd", Ty::Int).arity(), 0);
    assert_eq!(*defs.lookup_by_name("minus").unwrap().t, "minus");
    assert!(defs.lookup_by_name("plus").is_some());
    assert!(defs.lookup_by_name("times").is_none());
    assert!(matches!(defs.less.ty, Ty::F { ref par, ref ret } if par.len() == 2 && matches!(**ret, Ty::Bool)));
    assert!(matches!(defs.plus.ty, Ty::F { ref par, ref ret } if par.len() == 2 && matches!(**ret, Ty::Int)));
}

#[test]
fn type_tags() {
    assert!(matches!(Ex::ConstInt(1).ty(), Ty::Int));
    assert!(matches!(Ex::ConstBool(true).ty(), Ty::Bool));
    assert!(matches!(uref("x").ty(), Ty::Int));
    let f = Ty::mk_func_n(vec![Ty::Int, Ty::Bool, Ty::Int], Ty::Bool);
    assert!(matches!(f, Ty::F { ref par, ref ret } if par.len() == 3 && matches!(**ret, Ty::Bool)));
    let g = Ty::mk_func_1(Ty::Bool, Ty::Int);
    assert!(matches!(g, Ty::F { ref par, ref ret } if par.len() == 1 && matches!(par[0], Ty::Bool) && matches!(**ret, Ty::Int)));
    let h = Ty::mk_func_2(Ty::Bool, Ty::Int, Ty::Int).clone();
    assert!(matches!(h, Ty::F { ref par, .. } if matches!(par[0], Ty::Bool) && matches!(par[1], Ty::Int)));
    let tagged = Ex::URef(name("f", h));
    assert!(matches!(tagged.ty(), Ty::F { .. }));
    let from: Ex = name("z", Ty::Bool).into();
    assert!(matches!(from, Ex::URef(_)));
}

#[test]
fn clone_keeps_the_expression() {
    let b = fibonacci();
    let e = b.ex.clone();
    let env = Env::new().bind(&b.name.t, e);
    assert_eq!(int_of(eval_ex(fibonacci_ap_n(5), &env, DEPTH)), 8);
    let n = name("k", Ty::Int);
    let m = n.clone();
    assert_eq!(m.t.0, "k");
    assert_eq!(m.0, "k");
}
