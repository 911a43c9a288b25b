use fang::cst::{CstChild, CstNode, CstPoint, CstRange};
use fang::literal::{int_literal, IntError};
use fang::parser::{
    check_ex, check_tree, collect_error_nodes, combine_results_2, combine_results_3,
    combine_results_n, parse, parse_ap, parse_binding, parse_bool, parse_checked, parse_cond,
    parse_ex, parse_identifier, parse_infix_ex, parse_int, parse_lambda, parse_let, parse_op,
    parse_prefix_ex, require_child_by_field_name, ParsingError,
};
use fang::syntax::{CompilationUnit, Ex, Loc, Span, N};
use fang::text::{check_slice, slice, str_eq};

/// The range of the bytes `start..end` of a text of one line.
fn range(start: usize, end: usize) -> CstRange {
    CstRange {
        start_byte: start,
        end_byte: end,
        start_point: CstPoint { row: 0, column: start },
        end_point: CstPoint { row: 0, column: end },
    }
}

fn node(kind: &str, start: usize, end: usize, children: Vec<CstChild>) -> CstNode {
    CstNode {
        kind: kind.to_string(),
        named: true,
        error: false,
        missing: false,
        range: range(start, end),
        children,
    }
}

fn leaf(kind: &str, start: usize, end: usize) -> CstNode {
    node(kind, start, end, vec![])
}

fn token(text: &str, start: usize, end: usize) -> CstNode {
    let mut n = leaf(text, start, end);
    n.named = false;
    n
}

fn error_node(start: usize, end: usize, children: Vec<CstChild>) -> CstNode {
    let mut n = node("ERROR", start, end, children);
    n.error = true;
    n
}

fn missing_node(kind: &str, at: usize) -> CstNode {
    let mut n = leaf(kind, at, at);
    n.missing = true;
    n
}

fn field(name: &str, node: CstNode) -> CstChild {
    CstChild { field: Some(name.to_string()), node }
}

fn plain(node: CstNode) -> CstChild {
    CstChild { field: None, node }
}

fn root(len: usize, children: Vec<CstNode>) -> CstNode {
    node("source_file", 0, len, children.into_iter().map(plain).collect())
}

fn error(msg: &str, at: usize) -> ParsingError {
    ParsingError { msg: msg.to_string(), loc: Loc { row: 0, col: at }, offset: at }
}

fn infix(start: usize, end: usize, lhs: CstNode, op: CstNode, rhs: CstNode) -> CstNode {
    node("infix_ex", start, end, vec![field("lhs", lhs), field("op", op), field("rhs", rhs)])
}

const TOO_LARGE: &str = "number too large to fit in target type";
const TOO_SMALL: &str = "number too small to fit in target type";
const INVALID: &str = "invalid digit found in string";
const EMPTY: &str = "cannot parse integer from empty string";

#[test]
fn t_parse_int() {
    // The tree that is handed in has no expression below its root.
    let code = "a + b * c";
    let r = parse(code, &root(code.len(), vec![])).unwrap();
    assert_eq!(r, CompilationUnit { nodes: vec![] });
}

#[test]
fn infix_expression_is_transformed() {
    let code = "a + b * c";
    let product =
        infix(4, 9, leaf("identifier", 4, 5), token("*", 6, 7), leaf("identifier", 8, 9));
    let sum = infix(0, 9, leaf("identifier", 0, 1), token("+", 2, 3), product);
    let tree = root(code.len(), vec![sum]);
    assert!(check_tree(code, &tree));
    let unit = parse(code, &tree).unwrap();
    assert_eq!(unit.nodes.len(), 1);
    match &unit.nodes[0] {
        Ex::Infix(n) => {
            assert_eq!(n.t.op.t.0, "+");
            assert_eq!(n.offset_span, Span { start: 0, end: 9 });
            assert_eq!(
                n.loc_span,
                Span { start: Loc { row: 0, col: 0 }, end: Loc { row: 0, col: 9 } }
            );
            assert!(matches!(&n.t.lhs, Ex::Identifier(a) if a.t.0 == "a"));
            match &n.t.rhs {
                Ex::Infix(m) => {
                    assert_eq!(m.t.op.t.0, "*");
                    assert_eq!(m.t.op.offset_span, Span { start: 6, end: 7 });
                    assert!(matches!(&m.t.lhs, Ex::Identifier(b) if b.t.0 == "b"));
                    assert!(matches!(&m.t.rhs, Ex::Identifier(c) if c.t.0 == "c"));
                },
                other => panic!("unexpected {:?}", other),
            }
        },
        other => panic!("unexpected {:?}", other),
    }
}

#[test]
fn integer_literal_with_separators() {
    let code = "1_000_000";
    let unit = parse(code, &root(9, vec![leaf("const_int", 0, 9)])).unwrap();
    assert_eq!(unit.nodes, vec![Ex::ConstInt(N::new(1_000_000, range(0, 9)))]);
    assert_eq!(parse_int(code, range(0, 9)), Ok(N::new(1_000_000, range(0, 9))));
}

#[test]
fn integer_literal_out_of_range_is_a_located_error() {
    let code = "9_999_999_999_999_999_999";
    let errors = parse(code, &root(code.len(), vec![leaf("const_int", 0, code.len())])).unwrap_err();
    assert_eq!(errors, vec![error(TOO_LARGE, 0)]);
    let code = "  -9_223_372_036_854_775_809";
    let errors = parse(code, &root(code.len(), vec![leaf("const_int", 2, code.len())])).unwrap_err();
    assert_eq!(errors, vec![error(TOO_SMALL, 2)]);
}

#[test]
fn malformed_integer_literal_is_a_located_error() {
    let code = "_-";
    let errors = parse(code, &root(2, vec![leaf("const_int", 0, 2)])).unwrap_err();
    assert_eq!(errors, vec![error(INVALID, 0)]);
    let code = "__";
    let errors = parse(code, &root(2, vec![leaf("const_int", 0, 2)])).unwrap_err();
    assert_eq!(errors, vec![error(EMPTY, 0)]);
}

#[test]
fn integer_literals_read_as_the_standard_library_reads_them() {
    let texts = [
        "", "+", "-", "0", "-0", "+0", "+5", "-5", "12a", "a12", "1a2", "9223372036854775807",
        "9223372036854775808", "-9223372036854775808", "-9223372036854775809",
        "+9223372036854775807", "+9223372036854775808", "99999999999999999999x",
        "-99999999999999999999x", "1_000", "__", "_", "1__2", "_1_", " 1", "1 ", "+-1", "--1",
        "-+1", "00000000000000000000000000000001", "-00000000000000000000000000000009",
        "18446744073709551616", "1.5", "0x10", "١٢٣", "1é", "-_1", "_-1", "+_", "92233720368547758070",
    ];
    for text in texts {
        let expected = text.replace("_", "").parse::<i64>();
        match (int_literal(text), expected) {
            (Ok(a), Ok(b)) => assert_eq!(a, b, "value of {:?}", text),
            (Err(a), Err(b)) => assert_eq!(a.message(), format!("{}", b), "error of {:?}", text),
            (a, b) => panic!("{:?}: {:?} but the standard library gives {:?}", text, a, b),
        }
    }
    assert_eq!(int_literal("-9_223_372_036_854_775_808"), Ok(i64::MIN));
    assert_eq!(int_literal("9_223_372_036_854_775_807"), Ok(i64::MAX));
    assert_eq!(int_literal(""), Err(IntError::Empty));
    assert_eq!(int_literal("-"), Err(IntError::InvalidDigit));
    assert_eq!(int_literal("9223372036854775808"), Err(IntError::PosOverflow));
    assert_eq!(int_literal("-9223372036854775809"), Err(IntError::NegOverflow));
}

#[test]
fn every_error_of_an_expression_is_collected() {
    // f(99999999999999999999, 1, 1x)
    let code = "f(99999999999999999999, 1, 1x)";
    let call = node(
        "ap",
        0,
        code.len(),
        vec![
            field("receiver", leaf("identifier", 0, 1)),
            plain(token("(", 1, 2)),
            field("arguments", leaf("const_int", 2, 22)),
            field("arguments", token(",", 22, 23)),
            field("arguments", leaf("const_int", 24, 25)),
            field("arguments", token(",", 25, 26)),
            field("arguments", leaf("const_int", 27, 29)),
            plain(token(")", 29, 30)),
        ],
    );
    let tree = root(code.len(), vec![call, leaf("const_int", 27, 29)]);
    assert!(check_tree(code, &tree));
    let errors = parse(code, &tree).unwrap_err();
    assert_eq!(errors, vec![error(TOO_LARGE, 2), error(INVALID, 27), error(INVALID, 27)]);
}

#[test]
fn application_takes_named_arguments_in_order() {
    let code = "f(1, x)";
    let call = node(
        "ap",
        0,
        7,
        vec![
            field("receiver", leaf("identifier", 0, 1)),
            field("arguments", leaf("const_int", 2, 3)),
            field("arguments", token(",", 3, 4)),
            field("arguments", leaf("identifier", 5, 6)),
        ],
    );
    let n = parse_ap(code, &call).unwrap();
    assert!(matches!(&n.t.receiver, Ex::Identifier(f) if f.t.0 == "f"));
    assert_eq!(n.t.args.len(), 2);
    assert!(matches!(&n.t.args[0], Ex::ConstInt(i) if *i.t == 1));
    assert!(matches!(&n.t.args[1], Ex::Identifier(x) if x.t.0 == "x"));
    assert!(matches!(parse_ex(code, &call), Ok(Ex::Application(_))));
}

#[test]
fn structural_errors_come_alone_and_deepest_first() {
    // An error node that holds another error node and a missing token, beside
    // an integer literal that would not convert.
    let code = "1x ) ( +";
    let inner = error_node(3, 4, vec![]);
    let outer = error_node(3, 8, vec![plain(inner), plain(missing_node("identifier", 8))]);
    let lone = error_node(5, 6, vec![]);
    let tree = root(code.len(), vec![leaf("const_int", 0, 2), outer, lone]);
    let errors = parse(code, &tree).unwrap_err();
    assert_eq!(
        errors,
        vec![error("Unexpected token", 3), error("Missing token", 8), error("Unexpected token", 5)]
    );
    assert_eq!(collect_error_nodes(code, &tree), errors);
    // Without the error nodes the literal is what is reported.
    let tree = root(code.len(), vec![leaf("const_int", 0, 2)]);
    assert_eq!(parse(code, &tree).unwrap_err(), vec![error(INVALID, 0)]);
}

#[test]
fn error_below_an_unnamed_child_is_found() {
    let code = "( x";
    let mut paren = token("(", 0, 1);
    paren.children = vec![plain(missing_node(")", 3))];
    let tree = root(3, vec![paren, leaf("identifier", 2, 3)]);
    assert_eq!(parse(code, &tree).unwrap_err(), vec![error("Missing token", 3)]);
}

#[test]
fn parse_is_deterministic() {
    let code = "f(99999999999999999999, x)";
    let call = node(
        "ap",
        0,
        code.len(),
        vec![
            field("receiver", leaf("identifier", 0, 1)),
            field("arguments", leaf("const_int", 2, 22)),
            field("arguments", leaf("identifier", 24, 25)),
        ],
    );
    let tree = root(code.len(), vec![call, leaf("identifier", 24, 25)]);
    assert_eq!(parse(code, &tree), parse(code, &tree));
    let code = "x";
    let tree = root(1, vec![leaf("identifier", 0, 1)]);
    assert_eq!(parse(code, &tree), parse(code, &tree));
    assert!(parse(code, &tree).is_ok());
}

#[test]
fn booleans_and_identifiers() {
    let code = "True False yes";
    assert_eq!(parse_bool(code, range(0, 4)), N::new(true, range(0, 4)));
    assert_eq!(parse_bool(code, range(5, 10)), N::new(false, range(5, 10)));
    assert_eq!(parse_identifier(code, range(11, 14)).t.0, "yes");
    assert_eq!(parse_op(code, range(0, 1)).t.0, "T");
    let tree = root(code.len(), vec![leaf("const_bool", 0, 4), leaf("const_bool", 5, 10)]);
    let unit = parse(code, &tree).unwrap();
    assert!(matches!(&unit.nodes[0], Ex::ConstBool(b) if *b.t));
    assert!(matches!(&unit.nodes[1], Ex::ConstBool(b) if !*b.t));
}

#[test]
fn identifier_with_wide_characters() {
    let code = "é = ü";
    assert!(check_slice(code, 0, 2));
    assert!(!check_slice(code, 0, 1));
    assert!(!check_slice(code, 1, 2));
    assert!(!check_slice(code, 3, 2));
    assert!(!check_slice(code, 0, 100));
    assert_eq!(slice(code, 0, 2), "é");
    assert_eq!(slice(code, 5, 7), "ü");
    assert_eq!(slice(code, 2, 5), " = ");
    assert_eq!(parse_identifier(code, range(5, 7)).t.0, "ü");
    assert!(str_eq("é", slice(code, 0, 2)));
    assert!(!str_eq("é", "e"));
    assert!(!str_eq("ab", "abc"));
    assert!(str_eq("", ""));
}

#[test]
fn prefix_expression() {
    let code = "-x";
    let n = node(
        "prefix_ex",
        0,
        2,
        vec![field("op", token("-", 0, 1)), field("body", leaf("identifier", 1, 2))],
    );
    let p = parse_prefix_ex(code, &n).unwrap();
    assert_eq!(p.t.op.t.0, "-");
    assert!(matches!(&p.t.body, Ex::Identifier(x) if x.t.0 == "x"));
    assert!(matches!(parse_ex(code, &n), Ok(Ex::Prefix(_))));
}

fn binding_node() -> CstNode {
    // "f a b = 1x"
    node(
        "binding",
        0,
        10,
        vec![
            field("lhs", leaf("identifier", 0, 1)),
            field("params", leaf("identifier", 2, 3)),
            field("params", leaf("identifier", 4, 5)),
            plain(token("=", 6, 7)),
            field("rhs", leaf("const_int", 8, 9)),
        ],
    )
}

#[test]
fn definition_with_parameters() {
    let code = "f a b = 1x";
    let b = parse_binding(code, &binding_node()).unwrap();
    assert_eq!(b.t.lhs.t.0, "f");
    assert_eq!(b.t.params.len(), 2);
    assert_eq!(b.t.params[0].t.0, "a");
    assert_eq!(b.t.params[1].t.0, "b");
    assert_eq!(b.t.params[1].offset_span, Span { start: 4, end: 5 });
    assert!(matches!(&b.t.rhs, Ex::ConstInt(i) if *i.t == 1));
    assert!(matches!(parse_ex(code, &binding_node()), Ok(Ex::Binding(_))));
    let mut bad = binding_node();
    bad.children[4] = field("rhs", leaf("const_int", 8, 10));
    assert_eq!(parse_binding(code, &bad).unwrap_err(), vec![error(INVALID, 8)]);
}

#[test]
fn let_expression_collects_errors_of_definitions_and_body() {
    // "let a = 1x; b = 2y in 3z"
    let code = "let a = 1x; b = 2y in 3z";
    let first = node(
        "binding",
        4,
        10,
        vec![field("lhs", leaf("identifier", 4, 5)), field("rhs", leaf("const_int", 8, 10))],
    );
    let second = node(
        "binding",
        12,
        18,
        vec![field("lhs", leaf("identifier", 12, 13)), field("rhs", leaf("const_int", 16, 18))],
    );
    let tree = node(
        "let",
        0,
        24,
        vec![
            field("bindings", first),
            field("bindings", token(";", 10, 11)),
            field("bindings", second),
            field("body", leaf("const_int", 22, 24)),
        ],
    );
    assert!(check_ex(code, &tree));
    assert_eq!(
        parse_let(code, &tree).unwrap_err(),
        vec![error(INVALID, 8), error(INVALID, 16), error(INVALID, 22)]
    );
    let code = "let a = 11; b = 22 in 33";
    let l = parse_let(code, &tree).unwrap();
    assert_eq!(l.t.bindings.len(), 2);
    assert_eq!(l.t.bindings[1].t.lhs.t.0, "b");
    assert!(matches!(&l.t.bindings[1].t.rhs, Ex::ConstInt(i) if *i.t == 22));
    assert!(matches!(&l.t.body, Ex::ConstInt(i) if *i.t == 33));
    assert!(matches!(parse_ex(code, &tree), Ok(Ex::Let(_))));
}

#[test]
fn function_literal() {
    let code = "\\x y -> x";
    let tree = node(
        "lambda",
        0,
        9,
        vec![
            field("params", leaf("identifier", 1, 2)),
            field("params", leaf("identifier", 3, 4)),
            field("body", leaf("identifier", 8, 9)),
        ],
    );
    let l = parse_lambda(code, &tree).unwrap();
    assert_eq!(l.t.params.len(), 2);
    assert_eq!(l.t.params[0].t.0, "x");
    assert_eq!(l.t.params[1].t.0, "y");
    assert!(matches!(&l.t.body, Ex::Identifier(x) if x.t.0 == "x"));
    assert!(matches!(parse_ex(code, &tree), Ok(Ex::Lambda(_))));
}

#[test]
fn conditional_collects_errors_of_all_three_parts() {
    let code = "if 1a then 2b else 3c";
    let tree = node(
        "cond",
        0,
        21,
        vec![
            field("pred", leaf("const_int", 3, 5)),
            field("then", leaf("const_int", 11, 13)),
            field("else", leaf("const_int", 19, 21)),
        ],
    );
    assert_eq!(
        parse_cond(code, &tree).unwrap_err(),
        vec![error(INVALID, 3), error(INVALID, 11), error(INVALID, 19)]
    );
    let code = "if 10 then 20 else 30";
    let c = parse_cond(code, &tree).unwrap();
    assert!(matches!(&c.t.pred, Ex::ConstInt(i) if *i.t == 10));
    assert!(matches!(&c.t.thn, Ex::ConstInt(i) if *i.t == 20));
    assert!(matches!(&c.t.els, Ex::ConstInt(i) if *i.t == 30));
    assert!(matches!(parse_ex(code, &tree), Ok(Ex::Condition(_))));
}

#[test]
fn infix_collects_errors_of_both_sides() {
    let code = "1a + 2b";
    let tree = infix(0, 7, leaf("const_int", 0, 2), token("+", 3, 4), leaf("const_int", 5, 7));
    assert_eq!(parse_infix_ex(code, &tree).unwrap_err(), vec![error(INVALID, 0), error(INVALID, 5)]);
}

#[test]
fn first_child_of_a_field_is_the_one() {
    let n = node(
        "infix_ex",
        0,
        5,
        vec![
            plain(leaf("identifier", 0, 1)),
            field("lhs", leaf("identifier", 1, 2)),
            field("lhs", leaf("identifier", 2, 3)),
        ],
    );
    assert_eq!(require_child_by_field_name(&n, "lhs").range, range(1, 2));
    assert!(n.child_by_field_name("rhs").is_none());
    assert_eq!(n.named_children().len(), 3);
    assert_eq!(n.named_children_by_field_name("lhs").len(), 2);
    assert_eq!(n.named_children_by_field_name("lhs")[1].range, range(2, 3));
    assert!(n.children[1].has_field("lhs"));
    assert!(!n.children[0].has_field("lhs"));
}

#[test]
fn inconsistent_trees_are_told_apart() {
    let code = "a + b";
    // A field that the kind guarantees is not filled.
    let no_rhs = node(
        "infix_ex",
        0,
        5,
        vec![field("lhs", leaf("identifier", 0, 1)), field("op", token("+", 2, 3))],
    );
    assert!(!check_ex(code, &no_rhs));
    assert!(!check_tree(code, &root(5, vec![no_rhs])));
    // A kind that is none of the ten.
    assert!(!check_ex(code, &leaf("comment", 0, 1)));
    assert!(parse_checked(code, &root(5, vec![leaf("comment", 0, 1)])).is_none());
    // A range that leaves the text.
    assert!(!check_ex(code, &leaf("identifier", 4, 6)));
    // A boolean that is neither.
    assert!(!check_ex(code, &leaf("const_bool", 0, 1)));
    // Error nodes and missing tokens are not transformed.
    assert!(!check_ex(code, &error_node(0, 1, vec![])));
    assert!(!check_ex(code, &missing_node("identifier", 0)));
    // With a structural error the expressions are not looked at.
    let tree = root(5, vec![leaf("comment", 0, 1), error_node(2, 3, vec![])]);
    assert!(check_tree(code, &tree));
    assert_eq!(parse_checked(code, &tree), Some(Err(vec![error("Unexpected token", 2)])));
    // Unnamed children of the root are passed over.
    let tree = root(5, vec![token("+", 2, 3), leaf("identifier", 0, 1)]);
    let unit = parse_checked(code, &tree).unwrap().unwrap();
    assert_eq!(unit.nodes.len(), 1);
}

#[test]
fn combining_two_results() {
    let ok: Result<i32, Vec<&str>> = Ok(1);
    let ok2: Result<bool, Vec<&str>> = Ok(true);
    assert_eq!(combine_results_2(ok, ok2), Ok((1, true)));
    let a: Result<i32, Vec<&str>> = Err(vec!["a1", "a2"]);
    let b: Result<i32, Vec<&str>> = Err(vec!["b1"]);
    assert_eq!(combine_results_2(a, b), Err(vec!["a1", "a2", "b1"]));
    let a: Result<i32, Vec<&str>> = Err(vec!["a1"]);
    let b: Result<i32, Vec<&str>> = Ok(2);
    assert_eq!(combine_results_2(a, b), Err(vec!["a1"]));
    let a: Result<i32, Vec<&str>> = Ok(2);
    let b: Result<i32, Vec<&str>> = Err(vec!["b1"]);
    assert_eq!(combine_results_2(a, b), Err(vec!["b1"]));
}

#[test]
fn combining_three_results() {
    let a: Result<i32, Vec<&str>> = Ok(1);
    let b: Result<char, Vec<&str>> = Ok('b');
    let c: Result<bool, Vec<&str>> = Ok(false);
    assert_eq!(combine_results_3(a, b, c), Ok((1, 'b', false)));
    let a: Result<i32, Vec<&str>> = Err(vec!["a"]);
    let b: Result<char, Vec<&str>> = Ok('b');
    let c: Result<bool, Vec<&str>> = Err(vec!["c1", "c2"]);
    assert_eq!(combine_results_3(a, b, c), Err(vec!["a", "c1", "c2"]));
    let a: Result<i32, Vec<&str>> = Err(vec!["a"]);
    let b: Result<char, Vec<&str>> = Err(vec!["b"]);
    let c: Result<bool, Vec<&str>> = Err(vec!["c"]);
    assert_eq!(combine_results_3(a, b, c), Err(vec!["a", "b", "c"]));
}

#[test]
fn combining_many_results() {
    let all: Vec<Result<i32, Vec<&str>>> = vec![Ok(1), Ok(2), Ok(3)];
    assert_eq!(combine_results_n(all), Ok(vec![1, 2, 3]));
    let none: Vec<Result<i32, Vec<&str>>> = vec![];
    assert_eq!(combine_results_n(none), Ok(vec![]));
    // Of five results two fail: their errors come out, joined in order.
    let some: Vec<Result<i32, Vec<&str>>> =
        vec![Ok(1), Err(vec!["b1", "b2"]), Ok(3), Err(vec!["d1"]), Ok(5)];
    assert_eq!(combine_results_n(some), Err(vec!["b1", "b2", "d1"]));
    // A failure without errors is still a failure.
    let bare: Vec<Result<i32, Vec<&str>>> = vec![Ok(1), Err(vec![])];
    assert_eq!(combine_results_n(bare), Err(vec![]));
}

#[test]
fn conversions_into_expressions() {
    let e: Ex = N::new(7i64, range(0, 1)).into();
    assert!(matches!(e, Ex::ConstInt(_)));
    let e: Ex = N::new(true, range(0, 1)).into();
    assert!(matches!(e, Ex::ConstBool(_)));
    let loc: Loc = CstPoint { row: 3, column: 4 }.into();
    assert_eq!(loc, Loc { row: 3, col: 4 });
    let r = CstRange {
        start_byte: 1,
        end_byte: 2,
        start_point: CstPoint { row: 3, column: 4 },
        end_point: CstPoint { row: 5, column: 6 },
    };
    let bytes: Span<usize> = r.into();
    assert_eq!(bytes, Span { start: 1, end: 2 });
    let locs: Span<Loc> = r.into();
    assert_eq!(locs, Span { start: Loc { row: 3, col: 4 }, end: Loc { row: 5, col: 6 } });
    let e = ParsingError::new("m".to_string(), r);
    assert_eq!(e, ParsingError { msg: "m".to_string(), loc: Loc { row: 3, col: 4 }, offset: 1 });
}
