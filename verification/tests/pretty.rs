use fang::builtin::BuiltinDefs;
use fang::example::{fibonacci_ex, inc_ap_n, inc_binding, inc_ex, incinc_ap_n};
use fang::pretty::int_to_string;
use fang::tast::{Application, Condition, Ex, NameDef, N};
use fang::ty::Ty;
use indented::indented;

#[test]
fn type_tags_as_text() {
    assert_eq!(Ty::Int.to_string(), "Int");
    assert_eq!(Ty::Bool.to_string(), "Bool");
    assert_eq!(Ty::mk_func_1(Ty::Int, Ty::Bool).to_string(), "(Int) -> Bool");
    assert_eq!(Ty::mk_func_2(Ty::Int, Ty::Int, Ty::Int).to_string(), "(Int, Int) -> Int");
    assert_eq!(Ty::mk_func_n(vec![], Ty::Int).to_string(), "() -> Int");
    let higher = Ty::mk_func_n(
        vec![Ty::mk_func_1(Ty::Int, Ty::Int), Ty::Bool, Ty::Int],
        Ty::mk_func_1(Ty::Bool, Ty::Bool),
    );
    assert_eq!(higher.to_string(), "((Int) -> Int, Bool, Int) -> (Bool) -> Bool");
}

#[test]
fn names_as_text() {
    let n = N::new(NameDef("x".to_string()), Ty::Int);
    assert_eq!(n.to_string(), "Name x: Int");
    let defs = BuiltinDefs::new();
    assert_eq!(defs.less.to_string(), "BuiltinName less: (Int, Int) -> Bool");
    assert_eq!(Ex::BRef(defs.plus).to_string(), "BuiltinName plus: (Int, Int) -> Int");
}

#[test]
fn integers_as_text() {
    assert_eq!(int_to_string(0), "0");
    assert_eq!(int_to_string(-5), "-5");
    assert_eq!(int_to_string(1234), "1234");
    assert_eq!(int_to_string(i64::MAX), i64::MAX.to_string());
    assert_eq!(int_to_string(i64::MIN), i64::MIN.to_string());
    assert_eq!(Ex::ConstInt(-17).to_string(), "-17");
    assert_eq!(Ex::ConstBool(true).to_string(), "true");
    assert_eq!(Ex::ConstBool(false).to_string(), "false");
}

#[test]
fn applications_as_text() {
    assert_eq!(inc_ap_n(5).to_string(), "App Name inc: (Int) -> Int: Int\n    5");
    assert_eq!(
        incinc_ap_n(5).to_string(),
        "App Name inc: (Int) -> Int: Int\n    App Name inc: (Int) -> Int: Int\n        5"
    );
    let none = Ex::Ap(N::new(Application { ex: Ex::ConstInt(1), args: vec![] }, Ty::Bool));
    assert_eq!(none.to_string(), "App 1: Bool\n");
    let two = Ex::Ap(N::new(
        Application { ex: Ex::ConstInt(1), args: vec![none, Ex::ConstInt(2)] },
        Ty::Int,
    ));
    assert_eq!(two.to_string(), "App 1: Int\n    App 1: Bool\n\n    2");
}

#[test]
fn conditionals_as_text() {
    let c = Ex::Cond(N::new(
        Condition { pred: Ex::ConstBool(true), thn: Ex::ConstInt(1), els: Ex::ConstInt(2) },
        Ty::Int,
    ));
    assert_eq!(c.to_string(), "if true\nthen 1\nelse 2");
}

#[test]
fn definitions_and_functions_as_text() {
    let lambda = "λ (Name n: Int): (Int) -> Int,\n    App BuiltinName plus: (Int, Int) -> Int: Int\n        Name n: Int\n        1";
    assert_eq!(inc_binding().ex.to_string(), lambda);
    let binding = "Binding Name inc: (Int) -> Int = \n    λ (Name n: Int): (Int) -> Int,\n        App BuiltinName plus: (Int, Int) -> Int: Int\n            Name n: Int\n            1";
    assert_eq!(inc_ex().to_string(), binding);
}

#[test]
fn fibonacci_as_text() {
    let expected = [
        "Binding Name fib: (Int) -> Int = ",
        "    λ (Name n: Int): (Int) -> Int,",
        "        if App BuiltinName less: (Int, Int) -> Bool: Bool",
        "            Name n: Int",
        "            2",
        "        then 1",
        "        else App BuiltinName plus: (Int, Int) -> Int: Int",
        "            App Name fib: (Int) -> Int: Int",
        "                App BuiltinName minus: (Int, Int) -> Int: Int",
        "                    Name n: Int",
        "                    1",
        "            App Name fib: (Int) -> Int: Int",
        "                App BuiltinName minus: (Int, Int) -> Int: Int",
        "                    Name n: Int",
        "                    2",
    ]
    .join("\n");
    assert_eq!(fibonacci_ex().to_string(), expected);
}

#[test]
fn nested_text_is_indented_as_the_indenting_crate_does() {
    let body = inc_binding().ex;
    let text = body.to_string();
    let e = Ex::Ap(N::new(Application { ex: Ex::ConstInt(0), args: vec![body] }, Ty::Int));
    let expected = format!("App 0: Int\n{}", indented(&text));
    assert_eq!(e.to_string(), expected);
    assert_ne!(e.to_string(), format!("App 0: Int\n{}", text));
}
