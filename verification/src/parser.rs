//! The transformer from the concrete syntax tree to the syntax tree, with
//! the errors of a whole source text collected in one pass.

use crate::cst::{field_text, CstNode, CstRange};
use crate::literal::{error_text, int_literal, literal_value};
use crate::syntax::{
    bind_model, bind_views, ex_views, ident_view, ident_views, operator_view, Ap, AstView, Bind,
    BindView, CompilationUnit, Cond, Ex, Ident, InfixEx, Lam, LetEx, Loc, Operator, PrefixEx, Token,
    N,
};
use crate::text::{check_slice, is_slice, slice, slice_of, str_eq};
use vstd::prelude::*;

verus! {

/// A problem found in the source text, with the place where it starts.
#[derive(Debug, PartialEq, Eq)]
pub struct ParsingError {
    pub msg: String,
    pub loc: Loc,
    pub offset: usize,
}

/// The mathematical value of a parsing error.
pub struct ErrorView {
    pub msg: Seq<char>,
    pub loc: Loc,
    pub offset: usize,
}

impl View for ParsingError {
    type V = ErrorView;

    open spec fn view(&self) -> ErrorView {
        ErrorView { msg: self.msg@, loc: self.loc, offset: self.offset }
    }
}

/// The error with the message `msg` at the start of `range`.
pub open spec fn error_at(msg: Seq<char>, range: CstRange) -> ErrorView {
    ErrorView {
        msg,
        loc: Loc { row: range.start_point.row, col: range.start_point.column },
        offset: range.start_byte,
    }
}

impl ParsingError {
    /// The error with the message `msg` at the start of `range`.
    pub fn new(msg: String, range: CstRange) -> (e: ParsingError)
        ensures
            e@ == error_at(msg@, range),
    {
        ParsingError {
            msg,
            loc: Loc { row: range.start_point.row, col: range.start_point.column },
            offset: range.start_byte,
        }
    }
}

/// The values of a list of errors, in order.
pub open spec fn error_views(errors: Seq<ParsingError>) -> Seq<ErrorView> {
    Seq::new(errors.len(), |i: int| errors[i]@)
}

/// The lists of `lists` joined into one, in order.
pub open spec fn concat<E>(lists: Seq<Seq<E>>) -> Seq<E>
    decreases lists.len(),
{
    if lists.len() == 0 {
        Seq::empty()
    } else {
        concat(lists.drop_last()) + lists.last()
    }
}

/// The error list of a failed result, and the empty list for a success.
pub open spec fn errors_of<A, E>(r: Result<A, Vec<E>>) -> Seq<E> {
    match r {
        Ok(_) => Seq::empty(),
        Err(e) => e@,
    }
}

/// The error lists of the failed results among `results`, joined in order.
pub open spec fn all_errors<A, E>(results: Seq<Result<A, Vec<E>>>) -> Seq<E>
    decreases results.len(),
{
    if results.len() == 0 {
        Seq::empty()
    } else {
        all_errors(results.drop_last()) + errors_of(results.last())
    }
}

/// Whether every result of `results` is a success.
pub open spec fn all_ok<A, E>(results: Seq<Result<A, Vec<E>>>) -> bool {
    forall|i: int| 0 <= i < results.len() ==> (#[trigger] results[i]) is Ok
}

/// The values of `results`, in order, when all of them are successes.
pub open spec fn all_values<A, E>(results: Seq<Result<A, Vec<E>>>) -> Seq<A> {
    Seq::new(results.len(), |i: int| results[i]->Ok_0)
}

/// The failed results among `results`, in order.
pub open spec fn failed_only<A, E>(results: Seq<Result<A, Vec<E>>>) -> Seq<Result<A, Vec<E>>>
    decreases results.len(),
{
    if results.len() == 0 {
        Seq::empty()
    } else if results.last() is Err {
        failed_only(results.drop_last()).push(results.last())
    } else {
        failed_only(results.drop_last())
    }
}

/// The error lists of a list of results are those of the results that
/// failed: where `m` of the results failed, what is joined is the `m` error
/// lists of those, in order, and the successes add nothing.
pub proof fn lemma_errors_come_from_failures<A, E>(results: Seq<Result<A, Vec<E>>>)
    ensures
        all_errors(results) == all_errors(failed_only(results)),
        forall|i: int| 0 <= i < failed_only(results).len() ==> (#[trigger] failed_only(results)[i]) is Err,
        all_ok(results) <==> failed_only(results).len() == 0,
    decreases results.len(),
{
    if results.len() > 0 {
        let before = results.drop_last();
        lemma_errors_come_from_failures(before);
        if results.last() is Err {
            assert(failed_only(results).drop_last() =~= failed_only(before));
        }
        if !all_ok(results) && failed_only(results).len() == 0 {
            let i = choose|i: int| 0 <= i < results.len() && !((#[trigger] results[i]) is Ok);
            assert(!(before[i] is Ok));
        }
    }
}

/// Joins two results: both values when both succeeded, and otherwise the
/// errors of the first followed by the errors of the second.
pub fn combine_results_2<A, B, E>(a: Result<A, Vec<E>>, b: Result<B, Vec<E>>) -> (r: Result<
    (A, B),
    Vec<E>,
>)
    ensures
        r is Ok <==> a is Ok && b is Ok,
        r matches Ok(pair) ==> pair.0 == a->Ok_0 && pair.1 == b->Ok_0,
        r matches Err(e) ==> e@ == errors_of(a) + errors_of(b),
{
    match (a, b) {
        (Ok(a), Ok(b)) => Ok((a, b)),
        (Err(mut ea), Err(mut eb)) => {
            ea.append(&mut eb);
            Err(ea)
        },
        (Err(ea), _) => {
            Err(ea)
        },
        (_, Err(eb)) => {
            Err(eb)
        },
    }
}

/// Joins three results: all values when all succeeded, and otherwise the
/// errors of each that failed, in order.
pub fn combine_results_3<A, B, C, E>(
    a: Result<A, Vec<E>>,
    b: Result<B, Vec<E>>,
    c: Result<C, Vec<E>>,
) -> (r: Result<(A, B, C), Vec<E>>)
    ensures
        r is Ok <==> a is Ok && b is Ok && c is Ok,
        r matches Ok(triple) ==> triple.0 == a->Ok_0 && triple.1 == b->Ok_0 && triple.2 == c->Ok_0,
        r matches Err(e) ==> e@ == errors_of(a) + errors_of(b) + errors_of(c),
{
    match combine_results_2(combine_results_2(a, b), c) {
        Ok(((a, b), c)) => Ok((a, b, c)),
        Err(e) => Err(e),
    }
}

/// Joins a list of results: the values in order when all succeeded, and
/// otherwise the errors of each that failed, in order.
pub fn combine_results_n<A, E>(results: Vec<Result<A, Vec<E>>>) -> (r: Result<Vec<A>, Vec<E>>)
    ensures
        r is Ok <==> all_ok(results@),
        r matches Ok(values) ==> values@ == all_values(results@),
        r matches Err(e) ==> e@ == all_errors(results@),
{
    let ghost given = results@;
    let mut errs: Vec<E> = Vec::new();
    let mut oks: Vec<A> = Vec::new();
    let mut failed = false;
    for result in it: results
        invariant
            it.seq() == given,
            failed <==> !all_ok(given.take(it.index() as int)),
            errs@ == all_errors(given.take(it.index() as int)),
            !failed ==> oks@ == all_values(given.take(it.index() as int)),
    {
        let ghost k = it.index() as int;
        proof {
            assert(given.take(k + 1).drop_last() =~= given.take(k));
        }
        match result {
            Ok(r) => {
                oks.push(r);
                proof {
                    if failed {
                        let i = choose|i: int| 0 <= i < k && !(#[trigger] given.take(k)[i] is Ok);
                        assert(!(given.take(k + 1)[i] is Ok));
                    }
                }
            },
            Err(mut e) => {
                errs.append(&mut e);
                failed = true;
                proof {
                    assert(!(given.take(k + 1)[k] is Ok));
                }
            },
        }
    }
    proof {
        assert(given.take(given.len() as int) =~= given);
    }
    if failed {
        Err(errs)
    } else {
        Ok(oks)
    }
}

/// The outcome of a transformation in the model: a value, or the errors
/// found.
pub type Parsed<A> = Result<A, Seq<ErrorView>>;

/// The errors of a failed outcome, and the empty list for a success.
pub open spec fn failures<A>(r: Parsed<A>) -> Seq<ErrorView> {
    match r {
        Ok(_) => Seq::empty(),
        Err(e) => e,
    }
}

/// Two outcomes joined: both values, or the errors of both in order.
pub open spec fn join_2<A, B>(a: Parsed<A>, b: Parsed<B>) -> Parsed<(A, B)> {
    match (a, b) {
        (Ok(x), Ok(y)) => Ok((x, y)),
        _ => Err(failures(a) + failures(b)),
    }
}

/// Three outcomes joined: all values, or the errors of all in order.
pub open spec fn join_3<A, B, C>(a: Parsed<A>, b: Parsed<B>, c: Parsed<C>) -> Parsed<(A, B, C)> {
    match (a, b, c) {
        (Ok(x), Ok(y), Ok(z)) => Ok((x, y, z)),
        _ => Err(failures(a) + failures(b) + failures(c)),
    }
}

/// The errors of the failed outcomes among `rs`, joined in order.
pub open spec fn joined_failures<A>(rs: Seq<Parsed<A>>) -> Seq<ErrorView>
    decreases rs.len(),
{
    if rs.len() == 0 {
        Seq::empty()
    } else {
        joined_failures(rs.drop_last()) + failures(rs.last())
    }
}

/// A list of outcomes joined: all values in order, or the errors of all in
/// order.
pub open spec fn join_n<A>(rs: Seq<Parsed<A>>) -> Parsed<Seq<A>> {
    if forall|i: int| 0 <= i < rs.len() ==> (#[trigger] rs[i]) is Ok {
        Ok(Seq::new(rs.len(), |i: int| rs[i]->Ok_0))
    } else {
        Err(joined_failures(rs))
    }
}

/// The structural errors of the tree under each child of `node`, in order.
pub open spec fn nested_errors(node: CstNode) -> Seq<Seq<ErrorView>>
    decreases node, 0nat,
{
    Seq::new(
        node.children.len() as nat,
        |i: int|
            if 0 <= i < node.children.len() {
                structural_errors(node.children[i].node)
            } else {
                Seq::empty()
            },
    )
}

/// The structural errors of the tree under `node`: where a node has errors
/// below it, those and no other; where it has none, its own, if it is an
/// error node or stands for a missing token.
pub open spec fn structural_errors(node: CstNode) -> Seq<ErrorView>
    decreases node, 1nat,
{
    let nested = concat(nested_errors(node));
    if nested.len() > 0 {
        nested
    } else if node.error {
        seq![error_at("Unexpected token"@, node.range)]
    } else if node.missing {
        seq![error_at("Missing token"@, node.range)]
    } else {
        Seq::empty()
    }
}

/// Collects the structural errors of the tree under `node`. An error node may
/// hold further error nodes: the errors found below a node are reported in
/// place of the node's own.
pub fn collect_error_nodes(code: &str, node: &CstNode) -> (errors: Vec<ParsingError>)
    ensures
        error_views(errors@) == structural_errors(*node),
    decreases node,
{
    let mut all_child_errors: Vec<ParsingError> = Vec::new();
    let ghost lists = nested_errors(*node);
    let mut i: usize = 0;
    while i < node.children.len()
        invariant
            i <= node.children.len(),
            lists == nested_errors(*node),
            error_views(all_child_errors@) == concat(lists.take(i as int)),
        decreases node.children.len() - i,
    {
        let mut child_errors = collect_error_nodes(code, &node.children[i].node);
        all_child_errors.append(&mut child_errors);
        proof {
            assert(lists.take(i + 1).drop_last() =~= lists.take(i as int));
        }
        i += 1;
    }
    proof {
        assert(lists.take(i as int) =~= lists);
    }
    if all_child_errors.len() > 0 {
        all_child_errors
    } else if node.error {
        let mut errors: Vec<ParsingError> = Vec::new();
        errors.push(ParsingError::new("Unexpected token".to_owned(), node.range));
        errors
    } else if node.missing {
        let mut errors: Vec<ParsingError> = Vec::new();
        errors.push(ParsingError::new("Missing token".to_owned(), node.range));
        errors
    } else {
        all_child_errors
    }
}

/// The piece of `code` that `range` covers, with the range.
pub open spec fn token_at(code: Seq<char>, range: CstRange) -> Token {
    Token { text: slice_of(code, range.start_byte as int, range.end_byte as int), range }
}

/// Whether `range` covers whole characters of `code`.
pub open spec fn covers(code: Seq<char>, range: CstRange) -> bool {
    is_slice(code, range.start_byte as int, range.end_byte as int)
}

/// The integer constant that the text in `range` denotes, or the error of
/// its conversion, placed at the start of the literal.
pub open spec fn int_at(code: Seq<char>, range: CstRange) -> Parsed<AstView> {
    match literal_value(token_at(code, range).text) {
        Ok(value) => Ok(AstView::ConstInt { value, range }),
        Err(e) => Err(seq![error_at(error_text(e), range)]),
    }
}

/// Whether the text in `range` is one of the two boolean constants.
pub open spec fn is_bool_at(code: Seq<char>, range: CstRange) -> bool {
    token_at(code, range).text == "True"@ || token_at(code, range).text == "False"@
}

/// The boolean constant that the text in `range` denotes.
pub open spec fn bool_at(code: Seq<char>, range: CstRange) -> AstView {
    AstView::ConstBool { flag: token_at(code, range).text == "True"@, range }
}

/// Converts the integer literal in `range`. A literal that is malformed or
/// out of range gives one error, at the start of the literal.
pub fn parse_int(code: &str, range: CstRange) -> (r: Result<N<i64>, Vec<ParsingError>>)
    requires
        covers(code@, range),
    ensures
        match r {
            Ok(n) => int_at(code@, range) == Ok::<AstView, Seq<ErrorView>>(Ex::ConstInt(n)@),
            Err(e) => int_at(code@, range) == Err::<AstView, Seq<ErrorView>>(error_views(e@)),
        },
{
    let int_str = slice(code, range.start_byte, range.end_byte);
    match int_literal(int_str) {
        Ok(val) => Ok(N::new(val, range)),
        Err(e) => {
            let mut errors: Vec<ParsingError> = Vec::new();
            errors.push(ParsingError::new(e.message().to_owned(), range));
            assert(error_views(errors@) =~= seq![error_at(error_text(e), range)]);
            Err(errors)
        },
    }
}

/// Reads the boolean constant in `range`.
pub fn parse_bool(code: &str, range: CstRange) -> (n: N<bool>)
    requires
        covers(code@, range),
        is_bool_at(code@, range),
    ensures
        Ex::ConstBool(n)@ == bool_at(code@, range),
{
    let bool_str = slice(code, range.start_byte, range.end_byte);
    if str_eq(bool_str, "True") {
        N::new(true, range)
    } else {
        N::new(false, range)
    }
}

/// Reads the identifier in `range`.
pub fn parse_identifier(code: &str, range: CstRange) -> (n: N<Ident>)
    requires
        covers(code@, range),
    ensures
        ident_view(n) == token_at(code@, range),
{
    let ident_name = slice(code, range.start_byte, range.end_byte);
    N::new(Ident(ident_name.to_owned()), range)
}

/// Reads the operator in `range`.
pub fn parse_op(code: &str, range: CstRange) -> (n: N<Operator>)
    requires
        covers(code@, range),
    ensures
        operator_view(n) == token_at(code@, range),
{
    let op_str = slice(code, range.start_byte, range.end_byte);
    N::new(Operator(op_str.to_owned()), range)
}

/// The first child of `node` that fills the field `field`.
pub fn require_child_by_field_name<'tree>(node: &'tree CstNode, field: &str) -> (child: &'tree CstNode)
    requires
        node.has_field(field@),
    ensures
        *child == node.field(field@),
{
    node.child_by_field_name(field).unwrap()
}

/// The outcome of transforming the child of `node` at the index `i`.
pub open spec fn child_ast(code: Seq<char>, node: CstNode, i: int) -> Parsed<AstView>
    decreases node, 0nat,
{
    if 0 <= i < node.children.len() {
        ast_of(code, node.children[i].node)
    } else {
        Err(Seq::empty())
    }
}

/// The outcome of transforming, as a definition, the child of `node` at the
/// index `i`.
pub open spec fn child_binding(code: Seq<char>, node: CstNode, i: int) -> Parsed<BindView>
    decreases node, 0nat,
{
    if 0 <= i < node.children.len() {
        binding_of(code, node.children[i].node)
    } else {
        Err(Seq::empty())
    }
}

/// The outcome of transforming the child of `node` that fills the field
/// `name`.
pub open spec fn field_ast(code: Seq<char>, node: CstNode, name: Seq<char>) -> Parsed<AstView>
    decreases node, 1nat,
{
    match node.field_index(name) {
        Some(i) => child_ast(code, node, i),
        None => Err(Seq::empty()),
    }
}

/// The outcomes of transforming the children of `node` at the indices `at`.
pub open spec fn asts_at(code: Seq<char>, node: CstNode, at: Seq<int>) -> Seq<Parsed<AstView>>
    decreases node, 1nat,
{
    Seq::new(at.len(), |k: int| child_ast(code, node, at[k]))
}

/// The outcomes of transforming, as definitions, the children of `node` at
/// the indices `at`.
pub open spec fn bindings_at(code: Seq<char>, node: CstNode, at: Seq<int>) -> Seq<Parsed<BindView>>
    decreases node, 1nat,
{
    Seq::new(at.len(), |k: int| child_binding(code, node, at[k]))
}

/// The texts of the children of `node` at the indices `at`, each with its
/// range.
pub open spec fn tokens_at(code: Seq<char>, node: CstNode, at: Seq<int>) -> Seq<Token> {
    Seq::new(at.len(), |k: int| token_at(code, node.children[at[k]].node.range))
}

/// The outcome of transforming `node` as an infix expression.
pub open spec fn infix_of(code: Seq<char>, node: CstNode) -> Parsed<AstView>
    decreases node, 2nat,
{
    match join_2(field_ast(code, node, "lhs"@), field_ast(code, node, "rhs"@)) {
        Ok((lhs, rhs)) => Ok(
            AstView::Infix {
                op: token_at(code, node.field("op"@).range),
                lhs: Box::new(lhs),
                rhs: Box::new(rhs),
                range: node.range,
            },
        ),
        Err(e) => Err(e),
    }
}

/// The outcome of transforming `node` as a prefix expression.
pub open spec fn prefix_of(code: Seq<char>, node: CstNode) -> Parsed<AstView>
    decreases node, 2nat,
{
    match field_ast(code, node, "body"@) {
        Ok(body) => Ok(
            AstView::Prefix {
                op: token_at(code, node.field("op"@).range),
                body: Box::new(body),
                range: node.range,
            },
        ),
        Err(e) => Err(e),
    }
}

/// The outcome of transforming `node` as a definition.
pub open spec fn binding_of(code: Seq<char>, node: CstNode) -> Parsed<BindView>
    decreases node, 2nat,
{
    match field_ast(code, node, "rhs"@) {
        Ok(rhs) => Ok(
            BindView {
                lhs: token_at(code, node.field("lhs"@).range),
                params: tokens_at(code, node, node.picks(Some("params"@))),
                rhs: Box::new(rhs),
                range: node.range,
            },
        ),
        Err(e) => Err(e),
    }
}

/// The outcome of transforming `node` as a let-expression.
pub open spec fn let_of(code: Seq<char>, node: CstNode) -> Parsed<AstView>
    decreases node, 2nat,
{
    match join_2(
        join_n(bindings_at(code, node, node.picks(Some("bindings"@)))),
        field_ast(code, node, "body"@),
    ) {
        Ok((bindings, body)) => Ok(AstView::Let { bindings, body: Box::new(body), range: node.range }),
        Err(e) => Err(e),
    }
}

/// The outcome of transforming `node` as a function literal.
pub open spec fn lambda_of(code: Seq<char>, node: CstNode) -> Parsed<AstView>
    decreases node, 2nat,
{
    match field_ast(code, node, "body"@) {
        Ok(body) => Ok(
            AstView::Lambda {
                params: tokens_at(code, node, node.picks(Some("params"@))),
                body: Box::new(body),
                range: node.range,
            },
        ),
        Err(e) => Err(e),
    }
}

/// The outcome of transforming `node` as an application.
pub open spec fn ap_of(code: Seq<char>, node: CstNode) -> Parsed<AstView>
    decreases node, 2nat,
{
    match join_2(
        field_ast(code, node, "receiver"@),
        join_n(asts_at(code, node, node.picks(Some("arguments"@)))),
    ) {
        Ok((receiver, args)) => Ok(
            AstView::Application { receiver: Box::new(receiver), args, range: node.range },
        ),
        Err(e) => Err(e),
    }
}

/// The outcome of transforming `node` as a conditional.
pub open spec fn cond_of(code: Seq<char>, node: CstNode) -> Parsed<AstView>
    decreases node, 2nat,
{
    match join_3(
        field_ast(code, node, "pred"@),
        field_ast(code, node, "then"@),
        field_ast(code, node, "else"@),
    ) {
        Ok((pred, thn, els)) => Ok(
            AstView::Condition {
                pred: Box::new(pred),
                thn: Box::new(thn),
                els: Box::new(els),
                range: node.range,
            },
        ),
        Err(e) => Err(e),
    }
}

/// The outcome of transforming `node`, by the rule of its kind: the
/// expression, or every error found under the node, in source order.
pub open spec fn ast_of(code: Seq<char>, node: CstNode) -> Parsed<AstView>
    decreases node, 3nat,
{
    if node.kind@ == "const_int"@ {
        int_at(code, node.range)
    } else if node.kind@ == "const_bool"@ {
        Ok(bool_at(code, node.range))
    } else if node.kind@ == "identifier"@ {
        Ok(AstView::Identifier(token_at(code, node.range)))
    } else if node.kind@ == "infix_ex"@ {
        infix_of(code, node)
    } else if node.kind@ == "prefix_ex"@ {
        prefix_of(code, node)
    } else if node.kind@ == "binding"@ {
        match binding_of(code, node) {
            Ok(b) => Ok(AstView::Binding(b)),
            Err(e) => Err(e),
        }
    } else if node.kind@ == "let"@ {
        let_of(code, node)
    } else if node.kind@ == "lambda"@ {
        lambda_of(code, node)
    } else if node.kind@ == "ap"@ {
        ap_of(code, node)
    } else if node.kind@ == "cond"@ {
        cond_of(code, node)
    } else {
        Err(Seq::empty())
    }
}

/// Whether the child of `node` at the index `i` can be transformed.
pub open spec fn child_ok(code: Seq<char>, node: CstNode, i: int) -> bool
    decreases node, 0nat,
{
    0 <= i < node.children.len() && ex_ok(code, node.children[i].node)
}

/// Whether the child of `node` at the index `i` can be transformed as a
/// definition.
pub open spec fn child_binding_ok(code: Seq<char>, node: CstNode, i: int) -> bool
    decreases node, 0nat,
{
    0 <= i < node.children.len() && binding_ok(code, node.children[i].node)
}

/// Whether `node` has a child in the field `name` that can be transformed.
pub open spec fn field_ok(code: Seq<char>, node: CstNode, name: Seq<char>) -> bool
    decreases node, 1nat,
{
    match node.field_index(name) {
        Some(i) => child_ok(code, node, i),
        None => false,
    }
}

/// Whether `node` has a child in the field `name` whose range covers whole
/// characters of `code`.
pub open spec fn field_covers(code: Seq<char>, node: CstNode, name: Seq<char>) -> bool {
    node.has_field(name) && covers(code, node.field(name).range)
}

/// Whether the ranges of the children of `node` at the indices `at` cover
/// whole characters of `code`.
pub open spec fn all_cover(code: Seq<char>, node: CstNode, at: Seq<int>) -> bool {
    forall|k: int| 0 <= k < at.len() ==> covers(code, #[trigger] node.children[at[k]].node.range)
}

/// Whether the children of `node` at the indices `at` can be transformed.
pub open spec fn all_children_ok(code: Seq<char>, node: CstNode, at: Seq<int>) -> bool
    decreases node, 1nat,
{
    forall|k: int| 0 <= k < at.len() ==> child_ok(code, node, #[trigger] at[k])
}

/// Whether the children of `node` at the indices `at` can be transformed as
/// definitions.
pub open spec fn all_bindings_ok(code: Seq<char>, node: CstNode, at: Seq<int>) -> bool
    decreases node, 1nat,
{
    forall|k: int| 0 <= k < at.len() ==> child_binding_ok(code, node, #[trigger] at[k])
}

/// Whether `node` has what a definition needs: a name, parameters whose
/// ranges lie in the text, and a right-hand side that can be transformed.
pub open spec fn binding_ok(code: Seq<char>, node: CstNode) -> bool
    decreases node, 2nat,
{
    &&& field_covers(code, node, "lhs"@)
    &&& all_cover(code, node, node.picks(Some("params"@)))
    &&& field_ok(code, node, "rhs"@)
}

/// Whether `node` has what the rule of its kind needs, and so has every node
/// below it that the rule transforms: the node is no error node and stands
/// for no missing token, its kind is one of the ten kinds of expression,
/// each field that its kind guarantees is filled, and each range that is
/// read lies in the text.
pub open spec fn ex_ok(code: Seq<char>, node: CstNode) -> bool
    decreases node, 3nat,
{
    &&& !node.error
    &&& !node.missing
    &&& if node.kind@ == "const_int"@ {
        covers(code, node.range)
    } else if node.kind@ == "const_bool"@ {
        covers(code, node.range) && is_bool_at(code, node.range)
    } else if node.kind@ == "identifier"@ {
        covers(code, node.range)
    } else if node.kind@ == "infix_ex"@ {
        infix_ok(code, node)
    } else if node.kind@ == "prefix_ex"@ {
        prefix_ok(code, node)
    } else if node.kind@ == "binding"@ {
        binding_ok(code, node)
    } else if node.kind@ == "let"@ {
        let_ok(code, node)
    } else if node.kind@ == "lambda"@ {
        lambda_ok(code, node)
    } else if node.kind@ == "ap"@ {
        ap_ok(code, node)
    } else if node.kind@ == "cond"@ {
        cond_ok(code, node)
    } else {
        false
    }
}

/// Whether `node` has what an infix expression needs.
pub open spec fn infix_ok(code: Seq<char>, node: CstNode) -> bool
    decreases node, 2nat,
{
    &&& field_covers(code, node, "op"@)
    &&& field_ok(code, node, "lhs"@)
    &&& field_ok(code, node, "rhs"@)
}

/// Whether `node` has what a prefix expression needs.
pub open spec fn prefix_ok(code: Seq<char>, node: CstNode) -> bool
    decreases node, 2nat,
{
    &&& field_covers(code, node, "op"@)
    &&& field_ok(code, node, "body"@)
}

/// Whether `node` has what a let-expression needs.
pub open spec fn let_ok(code: Seq<char>, node: CstNode) -> bool
    decreases node, 2nat,
{
    &&& all_bindings_ok(code, node, node.picks(Some("bindings"@)))
    &&& field_ok(code, node, "body"@)
}

/// Whether `node` has what a function literal needs.
pub open spec fn lambda_ok(code: Seq<char>, node: CstNode) -> bool
    decreases node, 2nat,
{
    &&& all_cover(code, node, node.picks(Some("params"@)))
    &&& field_ok(code, node, "body"@)
}

/// Whether `node` has what an application needs.
pub open spec fn ap_ok(code: Seq<char>, node: CstNode) -> bool
    decreases node, 2nat,
{
    &&& field_ok(code, node, "receiver"@)
    &&& all_children_ok(code, node, node.picks(Some("arguments"@)))
}

/// Whether `node` has what a conditional needs.
pub open spec fn cond_ok(code: Seq<char>, node: CstNode) -> bool
    decreases node, 2nat,
{
    &&& field_ok(code, node, "pred"@)
    &&& field_ok(code, node, "then"@)
    &&& field_ok(code, node, "else"@)
}

/// The outcome of a transformation, with the value taken by `f` and the
/// errors by their views.
pub open spec fn lift<A, V>(r: Result<A, Vec<ParsingError>>, f: spec_fn(A) -> V) -> Parsed<V> {
    match r {
        Ok(a) => Ok(f(a)),
        Err(e) => Err(error_views(e@)),
    }
}

/// The outcome of transforming an expression, in the model.
pub open spec fn parsed(r: Result<Ex, Vec<ParsingError>>) -> Parsed<AstView> {
    lift(r, |e: Ex| e@)
}

/// The outcome of transforming a definition, in the model.
pub open spec fn parsed_binding(r: Result<N<Bind>, Vec<ParsingError>>) -> Parsed<BindView> {
    lift(r, |n: N<Bind>| bind_model(n))
}

/// The views of two lists of errors, one after the other, are the views of
/// the joined list.
pub proof fn lemma_error_views_add(a: Seq<ParsingError>, b: Seq<ParsingError>)
    ensures
        error_views(a + b) == error_views(a) + error_views(b),
{
}

/// The errors of a failed result are, by their views, the failures of its
/// outcome in the model.
pub proof fn lemma_failures_of_lift<A, V>(r: Result<A, Vec<ParsingError>>, f: spec_fn(A) -> V)
    ensures
        error_views(errors_of(r)) == failures(lift(r, f)),
{
}

/// Joining results and then taking views gives what joining their outcomes
/// in the model gives.
pub proof fn lemma_join_n<A, V>(
    results: Seq<Result<A, Vec<ParsingError>>>,
    specs: Seq<Parsed<V>>,
    f: spec_fn(A) -> V,
)
    requires
        results.len() == specs.len(),
        forall|j: int| 0 <= j < results.len() ==> lift(#[trigger] results[j], f) == specs[j],
    ensures
        all_ok(results) <==> join_n(specs) is Ok,
        error_views(all_errors(results)) == joined_failures(specs),
        all_ok(results) ==> join_n(specs) == Ok::<Seq<V>, Seq<ErrorView>>(
            Seq::new(results.len(), |i: int| f(all_values(results)[i])),
        ),
    decreases results.len(),
{
    if results.len() > 0 {
        lemma_join_n(results.drop_last(), specs.drop_last(), f);
        lemma_error_views_add(all_errors(results.drop_last()), errors_of(results.last()));
        lemma_failures_of_lift(results.last(), f);
    }
    if all_ok(results) {
        assert forall|i: int| 0 <= i < specs.len() implies (#[trigger] specs[i]) is Ok by {
            assert(results[i] is Ok);
        }
        assert(join_n(specs)->Ok_0 =~= Seq::new(results.len(), |i: int| f(all_values(results)[i])));
    } else {
        let i = choose|i: int| 0 <= i < results.len() && !(#[trigger] results[i] is Ok);
        assert(!(specs[i] is Ok));
    }
}

/// A child of a node is smaller than the node.
pub proof fn lemma_child_smaller(node: CstNode, i: int)
    requires
        0 <= i < node.children.len(),
    ensures
        decreases_to!(node => node.children[i].node),
{
}

/// The child that fills a field is smaller than the node.
pub proof fn lemma_field_smaller(node: CstNode, name: Seq<char>)
    requires
        node.has_field(name),
    ensures
        decreases_to!(node => node.field(name)),
        0 <= node.field_index(name)->0 < node.children.len(),
{
    node.lemma_field_index(name, node.children.len() as int);
    lemma_child_smaller(node, node.field_index(name)->0);
}

/// Transforms `node` by the rule of its kind.
pub fn parse_ex(code: &str, node: &CstNode) -> (r: Result<Ex, Vec<ParsingError>>)
    requires
        ex_ok(code@, *node),
    ensures
        parsed(r) == ast_of(code@, *node),
    decreases *node, 3nat,
{
    let kind = node.kind.as_str();
    if str_eq(kind, "const_int") {
        match parse_int(code, node.range) {
            Ok(n) => Ok(Ex::ConstInt(n)),
            Err(e) => Err(e),
        }
    } else if str_eq(kind, "const_bool") {
        Ok(Ex::ConstBool(parse_bool(code, node.range)))
    } else if str_eq(kind, "identifier") {
        Ok(Ex::Identifier(parse_identifier(code, node.range)))
    } else if str_eq(kind, "infix_ex") {
        match parse_infix_ex(code, node) {
            Ok(n) => Ok(Ex::Infix(n)),
            Err(e) => Err(e),
        }
    } else if str_eq(kind, "prefix_ex") {
        match parse_prefix_ex(code, node) {
            Ok(n) => Ok(Ex::Prefix(n)),
            Err(e) => Err(e),
        }
    } else if str_eq(kind, "binding") {
        match parse_binding(code, node) {
            Ok(n) => Ok(Ex::Binding(n)),
            Err(e) => Err(e),
        }
    } else if str_eq(kind, "let") {
        match parse_let(code, node) {
            Ok(n) => Ok(Ex::Let(n)),
            Err(e) => Err(e),
        }
    } else if str_eq(kind, "lambda") {
        match parse_lambda(code, node) {
            Ok(n) => Ok(Ex::Lambda(n)),
            Err(e) => Err(e),
        }
    } else if str_eq(kind, "ap") {
        match parse_ap(code, node) {
            Ok(n) => Ok(Ex::Application(n)),
            Err(e) => Err(e),
        }
    } else {
        match parse_cond(code, node) {
            Ok(n) => Ok(Ex::Condition(n)),
            Err(e) => Err(e),
        }
    }
}

/// Transforms the child of `node` that fills the field `name`.
fn parse_field(code: &str, node: &CstNode, name: &str) -> (r: Result<Ex, Vec<ParsingError>>)
    requires
        field_ok(code@, *node, name@),
    ensures
        parsed(r) == field_ast(code@, *node, name@),
    decreases *node, 1nat,
{
    proof {
        lemma_field_smaller(*node, name@);
    }
    let child = require_child_by_field_name(node, name);
    parse_ex(code, child)
}

/// Reads the operator in the field `op` of `node`.
fn parse_op_field(code: &str, node: &CstNode) -> (n: N<Operator>)
    requires
        field_covers(code@, *node, "op"@),
    ensures
        operator_view(n) == token_at(code@, node.field("op"@).range),
{
    let op_node = require_child_by_field_name(node, "op");
    parse_op(code, op_node.range)
}

/// Reads the identifiers in the field `params` of `node`.
fn parse_params(code: &str, node: &CstNode) -> (params: Vec<N<Ident>>)
    requires
        all_cover(code@, *node, node.picks(Some("params"@))),
    ensures
        ident_views(params@) == tokens_at(code@, *node, node.picks(Some("params"@))),
{
    let nodes = node.named_children_by_field_name("params");
    let ghost at = node.picks(Some("params"@));
    let mut params: Vec<N<Ident>> = Vec::new();
    let mut k: usize = 0;
    while k < nodes.len()
        invariant
            k <= nodes.len(),
            params.len() == k,
            at == node.picks(Some("params"@)),
            node.are_children(nodes@, at),
            all_cover(code@, *node, at),
            forall|j: int| 0 <= j < k ==> ident_view(#[trigger] params[j]) == token_at(code@, nodes[j].range),
        decreases nodes.len() - k,
    {
        assert(*nodes[k as int] == node.children[at[k as int]].node);
        params.push(parse_identifier(code, nodes[k].range));
        k += 1;
    }
    params
}

/// Transforms an infix expression.
pub fn parse_infix_ex(code: &str, node: &CstNode) -> (r: Result<N<InfixEx>, Vec<ParsingError>>)
    requires
        infix_ok(code@, *node),
    ensures
        lift(r, |n: N<InfixEx>| Ex::Infix(n)@) == infix_of(code@, *node),
    decreases *node, 2nat,
{
    let op = parse_op_field(code, node);
    let lhs = parse_field(code, node, "lhs");
    let rhs = parse_field(code, node, "rhs");
    proof {
        lemma_failures_of_lift(lhs, |e: Ex| e@);
        lemma_failures_of_lift(rhs, |e: Ex| e@);
        lemma_error_views_add(errors_of(lhs), errors_of(rhs));
    }
    match combine_results_2(lhs, rhs) {
        Ok((lhs, rhs)) => Ok(N::new(InfixEx { op, lhs, rhs }, node.range)),
        Err(e) => Err(e),
    }
}

/// Transforms a prefix expression.
pub fn parse_prefix_ex(code: &str, node: &CstNode) -> (r: Result<N<PrefixEx>, Vec<ParsingError>>)
    requires
        prefix_ok(code@, *node),
    ensures
        lift(r, |n: N<PrefixEx>| Ex::Prefix(n)@) == prefix_of(code@, *node),
    decreases *node, 2nat,
{
    let op = parse_op_field(code, node);
    match parse_field(code, node, "body") {
        Ok(body) => Ok(N::new(PrefixEx { op, body }, node.range)),
        Err(e) => Err(e),
    }
}

/// Transforms a definition.
pub fn parse_binding(code: &str, node: &CstNode) -> (r: Result<N<Bind>, Vec<ParsingError>>)
    requires
        binding_ok(code@, *node),
    ensures
        parsed_binding(r) == binding_of(code@, *node),
    decreases *node, 2nat,
{
    let lhs_node = require_child_by_field_name(node, "lhs");
    let lhs = parse_identifier(code, lhs_node.range);
    let params = parse_params(code, node);
    match parse_field(code, node, "rhs") {
        Ok(rhs) => Ok(N::new(Bind { lhs, params, rhs }, node.range)),
        Err(e) => Err(e),
    }
}

/// Transforms a function literal.
pub fn parse_lambda(code: &str, node: &CstNode) -> (r: Result<N<Lam>, Vec<ParsingError>>)
    requires
        lambda_ok(code@, *node),
    ensures
        lift(r, |n: N<Lam>| Ex::Lambda(n)@) == lambda_of(code@, *node),
    decreases *node, 2nat,
{
    let params = parse_params(code, node);
    match parse_field(code, node, "body") {
        Ok(body) => Ok(N::new(Lam { params, body }, node.range)),
        Err(e) => Err(e),
    }
}

/// Transforms a conditional.
pub fn parse_cond(code: &str, node: &CstNode) -> (r: Result<N<Cond>, Vec<ParsingError>>)
    requires
        cond_ok(code@, *node),
    ensures
        lift(r, |n: N<Cond>| Ex::Condition(n)@) == cond_of(code@, *node),
    decreases *node, 2nat,
{
    let pred = parse_field(code, node, "pred");
    let thn = parse_field(code, node, "then");
    let els = parse_field(code, node, "else");
    proof {
        lemma_failures_of_lift(pred, |e: Ex| e@);
        lemma_failures_of_lift(thn, |e: Ex| e@);
        lemma_failures_of_lift(els, |e: Ex| e@);
        lemma_error_views_add(errors_of(pred), errors_of(thn));
        lemma_error_views_add(errors_of(pred) + errors_of(thn), errors_of(els));
    }
    match combine_results_3(pred, thn, els) {
        Ok((pred, thn, els)) => Ok(N::new(Cond { pred, thn, els }, node.range)),
        Err(e) => Err(e),
    }
}

/// Transforms the named children of `node`, or those of them that fill the
/// field `field`, each as an expression.
fn parse_children(code: &str, node: &CstNode, field: Option<&str>) -> (r: Result<
    Vec<Ex>,
    Vec<ParsingError>,
>)
    requires
        all_children_ok(code@, *node, node.picks(field_text(field))),
    ensures
        lift(r, |exs: Vec<Ex>| ex_views(exs@)) == join_n(
            asts_at(code@, *node, node.picks(field_text(field))),
        ),
    decreases *node, 1nat,
{
    let nodes = node.pick(field);
    let ghost at = node.picks(field_text(field));
    let ghost specs = asts_at(code@, *node, at);
    let mut results: Vec<Result<Ex, Vec<ParsingError>>> = Vec::new();
    let mut k: usize = 0;
    while k < nodes.len()
        invariant
            k <= nodes.len(),
            results.len() == k,
            at == node.picks(field_text(field)),
            specs == asts_at(code@, *node, at),
            node.are_children(nodes@, at),
            all_children_ok(code@, *node, at),
            forall|j: int| 0 <= j < k ==> parsed(#[trigger] results[j]) == specs[j],
        decreases nodes.len() - k,
    {
        proof {
            lemma_child_smaller(*node, at[k as int]);
        }
        results.push(parse_ex(code, nodes[k]));
        k += 1;
    }
    proof {
        lemma_join_n(results@, specs, |e: Ex| e@);
    }
    match combine_results_n(results) {
        Ok(exs) => {
            assert(ex_views(exs@) =~= join_n(specs)->Ok_0);
            Ok(exs)
        },
        Err(e) => Err(e),
    }
}

/// Transforms the named children of `node` in the field `bindings`, each as
/// a definition.
fn parse_bindings(code: &str, node: &CstNode) -> (r: Result<Vec<N<Bind>>, Vec<ParsingError>>)
    requires
        all_bindings_ok(code@, *node, node.picks(Some("bindings"@))),
    ensures
        lift(r, |bs: Vec<N<Bind>>| bind_views(bs@)) == join_n(
            bindings_at(code@, *node, node.picks(Some("bindings"@))),
        ),
    decreases *node, 1nat,
{
    let nodes = node.named_children_by_field_name("bindings");
    let ghost at = node.picks(Some("bindings"@));
    let ghost specs = bindings_at(code@, *node, at);
    let mut results: Vec<Result<N<Bind>, Vec<ParsingError>>> = Vec::new();
    let mut k: usize = 0;
    while k < nodes.len()
        invariant
            k <= nodes.len(),
            results.len() == k,
            at == node.picks(Some("bindings"@)),
            specs == bindings_at(code@, *node, at),
            node.are_children(nodes@, at),
            all_bindings_ok(code@, *node, at),
            forall|j: int| 0 <= j < k ==> parsed_binding(#[trigger] results[j]) == specs[j],
        decreases nodes.len() - k,
    {
        proof {
            lemma_child_smaller(*node, at[k as int]);
        }
        results.push(parse_binding(code, nodes[k]));
        k += 1;
    }
    proof {
        lemma_join_n(results@, specs, |n: N<Bind>| bind_model(n));
    }
    match combine_results_n(results) {
        Ok(bs) => {
            assert(bind_views(bs@) =~= join_n(specs)->Ok_0);
            Ok(bs)
        },
        Err(e) => Err(e),
    }
}

/// Transforms a let-expression.
pub fn parse_let(code: &str, node: &CstNode) -> (r: Result<N<LetEx>, Vec<ParsingError>>)
    requires
        let_ok(code@, *node),
    ensures
        lift(r, |n: N<LetEx>| Ex::Let(n)@) == let_of(code@, *node),
    decreases *node, 2nat,
{
    let bindings = parse_bindings(code, node);
    let body = parse_field(code, node, "body");
    proof {
        lemma_failures_of_lift(bindings, |bs: Vec<N<Bind>>| bind_views(bs@));
        lemma_failures_of_lift(body, |e: Ex| e@);
        lemma_error_views_add(errors_of(bindings), errors_of(body));
    }
    match combine_results_2(bindings, body) {
        Ok((bindings, body)) => {
            let n = N::new(LetEx { bindings, body }, node.range);
            assert(Ex::Let(n)@->Let_bindings =~= bind_views(bindings@));
            Ok(n)
        },
        Err(e) => Err(e),
    }
}

/// Transforms an application.
pub fn parse_ap(code: &str, node: &CstNode) -> (r: Result<N<Ap>, Vec<ParsingError>>)
    requires
        ap_ok(code@, *node),
    ensures
        lift(r, |n: N<Ap>| Ex::Application(n)@) == ap_of(code@, *node),
    decreases *node, 2nat,
{
    let receiver = parse_field(code, node, "receiver");
    let arguments = parse_children(code, node, Some("arguments"));
    proof {
        lemma_failures_of_lift(receiver, |e: Ex| e@);
        lemma_failures_of_lift(arguments, |exs: Vec<Ex>| ex_views(exs@));
        lemma_error_views_add(errors_of(receiver), errors_of(arguments));
    }
    match combine_results_2(receiver, arguments) {
        Ok((receiver, args)) => {
            let n = N::new(Ap { receiver, args }, node.range);
            assert(Ex::Application(n)@->Application_args =~= ex_views(args@));
            Ok(n)
        },
        Err(e) => Err(e),
    }
}

/// The joined failures of a list hold the failures of each outcome in it.
pub proof fn lemma_joined_failures_hold<A>(rs: Seq<Parsed<A>>, i: int)
    requires
        0 <= i < rs.len(),
    ensures
        joined_failures(rs).len() >= failures(rs[i]).len(),
    decreases rs.len(),
{
    if i < rs.len() - 1 {
        lemma_joined_failures_hold(rs.drop_last(), i);
    }
}

/// A list of outcomes that fails with errors in each failed outcome fails
/// with at least one error.
pub proof fn lemma_join_n_fails_with_errors<A>(rs: Seq<Parsed<A>>)
    requires
        forall|i: int| 0 <= i < rs.len() && (#[trigger] rs[i]) is Err ==> failures(rs[i]).len() > 0,
    ensures
        join_n(rs) is Err ==> failures(join_n(rs)).len() > 0,
{
    if join_n(rs) is Err {
        let i = choose|i: int| 0 <= i < rs.len() && !((#[trigger] rs[i]) is Ok);
        lemma_joined_failures_hold(rs, i);
    }
}

/// The transformation of a field that fails, fails with at least one
/// error.
pub proof fn lemma_field_fails_with_errors(code: Seq<char>, node: CstNode, name: Seq<char>)
    requires
        field_ok(code, node, name),
    ensures
        field_ast(code, node, name) is Err ==> failures(field_ast(code, node, name)).len() > 0,
    decreases node, 1nat,
{
    node.lemma_field_index(name, node.children.len() as int);
    lemma_fails_with_errors(code, node.children[node.field_index(name)->0].node);
}

/// The transformation of a list of children that fails, fails with at least
/// one error.
pub proof fn lemma_children_fail_with_errors(code: Seq<char>, node: CstNode, at: Seq<int>)
    requires
        all_children_ok(code, node, at),
    ensures
        join_n(asts_at(code, node, at)) is Err ==> failures(join_n(asts_at(code, node, at))).len()
            > 0,
    decreases node, 1nat,
{
    let rs = asts_at(code, node, at);
    assert forall|k: int| 0 <= k < rs.len() && (#[trigger] rs[k]) is Err implies failures(
        rs[k],
    ).len() > 0 by {
        lemma_fails_with_errors(code, node.children[at[k]].node);
    }
    lemma_join_n_fails_with_errors(rs);
}

/// The transformation of a list of definitions that fails, fails with at
/// least one error.
pub proof fn lemma_bindings_fail_with_errors(code: Seq<char>, node: CstNode, at: Seq<int>)
    requires
        all_bindings_ok(code, node, at),
    ensures
        join_n(bindings_at(code, node, at)) is Err ==> failures(
            join_n(bindings_at(code, node, at)),
        ).len() > 0,
    decreases node, 1nat,
{
    let rs = bindings_at(code, node, at);
    assert forall|k: int| 0 <= k < rs.len() && (#[trigger] rs[k]) is Err implies failures(
        rs[k],
    ).len() > 0 by {
        lemma_binding_fails_with_errors(code, node.children[at[k]].node);
    }
    lemma_join_n_fails_with_errors(rs);
}

/// The transformation of a definition that fails, fails with at least one
/// error.
pub proof fn lemma_binding_fails_with_errors(code: Seq<char>, node: CstNode)
    requires
        binding_ok(code, node),
    ensures
        binding_of(code, node) is Err ==> failures(binding_of(code, node)).len() > 0,
    decreases node, 2nat,
{
    lemma_field_fails_with_errors(code, node, "rhs"@);
}

/// A transformation that fails, fails with at least one error.
pub proof fn lemma_fails_with_errors(code: Seq<char>, node: CstNode)
    requires
        ex_ok(code, node),
    ensures
        ast_of(code, node) is Err ==> failures(ast_of(code, node)).len() > 0,
    decreases node, 3nat,
{
    if node.kind@ == "const_int"@ {
    } else if node.kind@ == "const_bool"@ {
    } else if node.kind@ == "identifier"@ {
    } else if node.kind@ == "infix_ex"@ {
        lemma_field_fails_with_errors(code, node, "lhs"@);
        lemma_field_fails_with_errors(code, node, "rhs"@);
    } else if node.kind@ == "prefix_ex"@ {
        lemma_field_fails_with_errors(code, node, "body"@);
    } else if node.kind@ == "binding"@ {
        lemma_binding_fails_with_errors(code, node);
    } else if node.kind@ == "let"@ {
        lemma_bindings_fail_with_errors(code, node, node.picks(Some("bindings"@)));
        lemma_field_fails_with_errors(code, node, "body"@);
    } else if node.kind@ == "lambda"@ {
        lemma_field_fails_with_errors(code, node, "body"@);
    } else if node.kind@ == "ap"@ {
        lemma_field_fails_with_errors(code, node, "receiver"@);
        lemma_children_fail_with_errors(code, node, node.picks(Some("arguments"@)));
    } else if node.kind@ == "cond"@ {
        lemma_field_fails_with_errors(code, node, "pred"@);
        lemma_field_fails_with_errors(code, node, "then"@);
        lemma_field_fails_with_errors(code, node, "else"@);
    }
}

/// The outcome of transforming a whole tree: the structural errors of the
/// tree where it has any, and then nothing else; where it has none, the
/// expressions of the named children of the root, or every error that the
/// conversions found, in source order.
pub open spec fn parse_of(code: Seq<char>, root: CstNode) -> Parsed<Seq<AstView>> {
    if structural_errors(root).len() > 0 {
        Err(structural_errors(root))
    } else {
        join_n(asts_at(code, root, root.picks(None)))
    }
}

/// Whether the tree under `root` is one that `parse` can work on: where it
/// has no structural error, every named child of the root can be
/// transformed.
pub open spec fn tree_ok(code: Seq<char>, root: CstNode) -> bool {
    structural_errors(root).len() == 0 ==> all_children_ok(code, root, root.picks(None))
}

/// The outcome of `parse`, in the model.
pub open spec fn parsed_unit(r: Result<CompilationUnit, Vec<ParsingError>>) -> Parsed<Seq<AstView>> {
    lift(r, |u: CompilationUnit| u@)
}

/// Transforms the concrete syntax tree `root` of the source text `code`.
///
/// The whole tree is searched for structural errors first. Where there is
/// one, no expression is transformed and the structural errors are the
/// result. Otherwise each named child of the root is transformed, and the
/// result is the unit of all expressions, or all errors found.
pub fn parse(code: &str, root: &CstNode) -> (r: Result<CompilationUnit, Vec<ParsingError>>)
    requires
        tree_ok(code@, *root),
    ensures
        parsed_unit(r) == parse_of(code@, *root),
        r matches Err(errors) ==> errors.len() > 0,
{
    let grammar_errors = collect_error_nodes(code, root);
    if grammar_errors.len() > 0 {
        return Err(grammar_errors);
    }
    proof {
        lemma_children_fail_with_errors(code@, *root, root.picks(None));
    }
    match parse_children(code, root, None) {
        Ok(nodes) => Ok(CompilationUnit { nodes }),
        Err(errors) => {
            Err(errors)
        },
    }
}

/// Two runs of `parse` on one source text and one tree have the same result:
/// the same errors, or the same expressions.
pub proof fn lemma_parse_is_deterministic(
    code: Seq<char>,
    root: CstNode,
    first: Result<CompilationUnit, Vec<ParsingError>>,
    second: Result<CompilationUnit, Vec<ParsingError>>,
)
    requires
        parsed_unit(first) == parse_of(code, root),
        parsed_unit(second) == parse_of(code, root),
    ensures
        parsed_unit(first) == parsed_unit(second),
        first is Ok <==> second is Ok,
        first is Ok ==> first->Ok_0@ == second->Ok_0@,
        first is Err ==> error_views(first->Err_0@) == error_views(second->Err_0@),
{
}

/// A tree with structural errors gives exactly those errors, as many as
/// there are, and none from the conversion of its expressions.
pub proof fn lemma_structural_errors_only(code: Seq<char>, root: CstNode)
    requires
        structural_errors(root).len() > 0,
    ensures
        parse_of(code, root) == Err::<Seq<AstView>, Seq<ErrorView>>(structural_errors(root)),
{
}

/// Whether `range` covers whole characters of `code`.
fn check_covers(code: &str, range: CstRange) -> (b: bool)
    ensures
        b == covers(code@, range),
{
    check_slice(code, range.start_byte, range.end_byte)
}

/// Whether `node` has a child in the field `name` whose range covers whole
/// characters of `code`.
fn check_field_covers(code: &str, node: &CstNode, name: &str) -> (b: bool)
    ensures
        b == field_covers(code@, *node, name@),
{
    match node.child_by_field_name(name) {
        Some(child) => check_covers(code, child.range),
        None => false,
    }
}

/// Whether the ranges of the named children of `node` in the field `name`
/// cover whole characters of `code`.
fn check_all_cover(code: &str, node: &CstNode, name: &str) -> (b: bool)
    ensures
        b == all_cover(code@, *node, node.picks(Some(name@))),
{
    let nodes = node.named_children_by_field_name(name);
    let ghost at = node.picks(Some(name@));
    let mut k: usize = 0;
    while k < nodes.len()
        invariant
            k <= nodes.len(),
            at == node.picks(Some(name@)),
            node.are_children(nodes@, at),
            forall|j: int| 0 <= j < k ==> covers(code@, #[trigger] node.children[at[j]].node.range),
        decreases nodes.len() - k,
    {
        if !check_covers(code, nodes[k].range) {
            assert(!covers(code@, node.children[at[k as int]].node.range));
            return false;
        }
        k += 1;
    }
    true
}

/// Whether `node` has a child in the field `name` that can be transformed.
fn check_field(code: &str, node: &CstNode, name: &str) -> (b: bool)
    ensures
        b == field_ok(code@, *node, name@),
    decreases *node, 1nat,
{
    match node.child_by_field_name(name) {
        Some(child) => {
            proof {
                lemma_field_smaller(*node, name@);
            }
            check_ex(code, child)
        },
        None => false,
    }
}

/// Whether the named children of `node`, or those of them that fill the
/// field `field`, can be transformed.
fn check_children(code: &str, node: &CstNode, field: Option<&str>) -> (b: bool)
    ensures
        b == all_children_ok(code@, *node, node.picks(field_text(field))),
    decreases *node, 1nat,
{
    let nodes = node.pick(field);
    let ghost at = node.picks(field_text(field));
    let mut k: usize = 0;
    while k < nodes.len()
        invariant
            k <= nodes.len(),
            at == node.picks(field_text(field)),
            node.are_children(nodes@, at),
            forall|j: int| 0 <= j < k ==> child_ok(code@, *node, #[trigger] at[j]),
        decreases nodes.len() - k,
    {
        proof {
            lemma_child_smaller(*node, at[k as int]);
        }
        if !check_ex(code, nodes[k]) {
            return false;
        }
        k += 1;
    }
    true
}

/// Whether the named children of `node` in the field `bindings` can be
/// transformed as definitions.
fn check_bindings(code: &str, node: &CstNode) -> (b: bool)
    ensures
        b == all_bindings_ok(code@, *node, node.picks(Some("bindings"@))),
    decreases *node, 1nat,
{
    let nodes = node.named_children_by_field_name("bindings");
    let ghost at = node.picks(Some("bindings"@));
    let mut k: usize = 0;
    while k < nodes.len()
        invariant
            k <= nodes.len(),
            at == node.picks(Some("bindings"@)),
            node.are_children(nodes@, at),
            forall|j: int| 0 <= j < k ==> child_binding_ok(code@, *node, #[trigger] at[j]),
        decreases nodes.len() - k,
    {
        proof {
            lemma_child_smaller(*node, at[k as int]);
        }
        if !check_binding(code, nodes[k]) {
            return false;
        }
        k += 1;
    }
    true
}

/// Whether `node` has what a definition needs.
pub fn check_binding(code: &str, node: &CstNode) -> (b: bool)
    ensures
        b == binding_ok(code@, *node),
    decreases *node, 2nat,
{
    check_field_covers(code, node, "lhs") && check_all_cover(code, node, "params") && check_field(
        code,
        node,
        "rhs",
    )
}

/// Whether `node` has what the rule of its kind needs, and so has every node
/// below it that the rule transforms.
pub fn check_ex(code: &str, node: &CstNode) -> (b: bool)
    ensures
        b == ex_ok(code@, *node),
    decreases *node, 3nat,
{
    if node.error || node.missing {
        return false;
    }
    let kind = node.kind.as_str();
    if str_eq(kind, "const_int") {
        check_covers(code, node.range)
    } else if str_eq(kind, "const_bool") {
        if !check_covers(code, node.range) {
            return false;
        }
        let text = slice(code, node.range.start_byte, node.range.end_byte);
        str_eq(text, "True") || str_eq(text, "False")
    } else if str_eq(kind, "identifier") {
        check_covers(code, node.range)
    } else if str_eq(kind, "infix_ex") {
        check_field_covers(code, node, "op") && check_field(code, node, "lhs") && check_field(
            code,
            node,
            "rhs",
        )
    } else if str_eq(kind, "prefix_ex") {
        check_field_covers(code, node, "op") && check_field(code, node, "body")
    } else if str_eq(kind, "binding") {
        check_binding(code, node)
    } else if str_eq(kind, "let") {
        check_bindings(code, node) && check_field(code, node, "body")
    } else if str_eq(kind, "lambda") {
        check_all_cover(code, node, "params") && check_field(code, node, "body")
    } else if str_eq(kind, "ap") {
        check_field(code, node, "receiver") && check_children(code, node, Some("arguments"))
    } else if str_eq(kind, "cond") {
        check_field(code, node, "pred") && check_field(code, node, "then") && check_field(
            code,
            node,
            "else",
        )
    } else {
        false
    }
}

/// Whether the tree under `root` is one that `parse` can work on.
pub fn check_tree(code: &str, root: &CstNode) -> (b: bool)
    ensures
        b == tree_ok(code@, *root),
{
    let grammar_errors = collect_error_nodes(code, root);
    grammar_errors.len() > 0 || check_children(code, root, None)
}

/// Transforms the tree `root` of the source text `code` where the tree is
/// one that `parse` can work on, and gives `None` where it is not.
pub fn parse_checked(code: &str, root: &CstNode) -> (r: Option<
    Result<CompilationUnit, Vec<ParsingError>>,
>)
    ensures
        r is Some <==> tree_ok(code@, *root),
        r matches Some(outcome) ==> parsed_unit(outcome) == parse_of(code@, *root),
        r matches Some(Err(errors)) ==> errors.len() > 0,
{
    if check_tree(code, root) {
        Some(parse(code, root))
    } else {
        None
    }
}

} // verus!
