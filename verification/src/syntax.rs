//! The syntax tree that the transformer produces: expressions as written,
//! each node with the source range that it came from.

use crate::cst::{CstPoint, CstRange};
use std::sync::Arc;
use vstd::prelude::*;

verus! {

/// A position in the source text, by row and column, both counted from zero.
#[derive(Debug, Clone, Copy, PartialEq, Eq, Structural)]
pub struct Loc {
    pub row: usize,
    pub col: usize,
}

impl From<CstPoint> for Loc {
    fn from(point: CstPoint) -> (loc: Self) {
        Self { row: point.row, col: point.column }
    }
}

impl vstd::std_specs::convert::FromSpecImpl<CstPoint> for Loc {
    open spec fn obeys_from_spec() -> bool {
        true
    }

    open spec fn from_spec(point: CstPoint) -> Self {
        Loc { row: point.row, col: point.column }
    }
}

/// A half-open range between two positions of one kind.
#[derive(Debug, PartialEq, Eq)]
pub struct Span<T> {
    pub start: T,
    pub end: T,
}

impl From<CstRange> for Span<usize> {
    fn from(r: CstRange) -> (span: Self) {
        Self { start: r.start_byte, end: r.end_byte }
    }
}

impl vstd::std_specs::convert::FromSpecImpl<CstRange> for Span<usize> {
    open spec fn obeys_from_spec() -> bool {
        true
    }

    open spec fn from_spec(r: CstRange) -> Self {
        Span { start: r.start_byte, end: r.end_byte }
    }
}

impl From<CstRange> for Span<Loc> {
    fn from(r: CstRange) -> (span: Self) {
        Self {
            start: Loc { row: r.start_point.row, col: r.start_point.column },
            end: Loc { row: r.end_point.row, col: r.end_point.column },
        }
    }
}

impl vstd::std_specs::convert::FromSpecImpl<CstRange> for Span<Loc> {
    open spec fn obeys_from_spec() -> bool {
        true
    }

    open spec fn from_spec(r: CstRange) -> Self {
        Span {
            start: Loc { row: r.start_point.row, col: r.start_point.column },
            end: Loc { row: r.end_point.row, col: r.end_point.column },
        }
    }
}

/// A payload together with the source range that it was read from.
#[derive(Debug, PartialEq, Eq)]
pub struct N<T> {
    pub t: Arc<T>,
    pub offset_span: Span<usize>,
    pub loc_span: Span<Loc>,
}

impl<T> N<T> {
    /// The source range of the node.
    pub open spec fn range(self) -> CstRange {
        CstRange {
            start_byte: self.offset_span.start,
            end_byte: self.offset_span.end,
            start_point: CstPoint { row: self.loc_span.start.row, column: self.loc_span.start.col },
            end_point: CstPoint { row: self.loc_span.end.row, column: self.loc_span.end.col },
        }
    }

    /// Wraps `t` with the range `range`.
    pub fn new(t: T, range: CstRange) -> (n: N<T>)
        ensures
            *n.t == t,
            n.range() == range,
    {
        Self {
            t: Arc::new(t),
            offset_span: Span { start: range.start_byte, end: range.end_byte },
            loc_span: Span {
                start: Loc { row: range.start_point.row, col: range.start_point.column },
                end: Loc { row: range.end_point.row, col: range.end_point.column },
            },
        }
    }
}

/// An identifier as written.
#[derive(Debug, PartialEq, Eq)]
pub struct Ident(pub String);

/// An operator as written.
#[derive(Debug, PartialEq, Eq)]
pub struct Operator(pub String);

/// `lhs op rhs`.
#[derive(Debug, PartialEq, Eq)]
pub struct InfixEx {
    pub op: N<Operator>,
    pub lhs: Ex,
    pub rhs: Ex,
}

/// `op body`.
#[derive(Debug, PartialEq, Eq)]
pub struct PrefixEx {
    pub op: N<Operator>,
    pub body: Ex,
}

/// A list of definitions and the expression that they are made for.
#[derive(Debug, PartialEq, Eq)]
pub struct LetEx {
    pub bindings: Vec<N<Bind>>,
    pub body: Ex,
}

/// A definition: a name, the parameters if it defines a function, and the
/// defining expression.
#[derive(Debug, PartialEq, Eq)]
pub struct Bind {
    pub lhs: N<Ident>,
    pub params: Vec<N<Ident>>,
    pub rhs: Ex,
}

/// A function literal.
#[derive(Debug, PartialEq, Eq)]
pub struct Lam {
    pub params: Vec<N<Ident>>,
    pub body: Ex,
}

/// The application of `receiver` to `args`.
#[derive(Debug, PartialEq, Eq)]
pub struct Ap {
    pub receiver: Ex,
    pub args: Vec<Ex>,
}

/// A conditional expression.
#[derive(Debug, PartialEq, Eq)]
pub struct Cond {
    pub pred: Ex,
    pub thn: Ex,
    pub els: Ex,
}

/// An expression as written.
#[derive(Debug, PartialEq, Eq)]
pub enum Ex {
    Application(N<Ap>),
    Binding(N<Bind>),
    Condition(N<Cond>),
    ConstBool(N<bool>),
    ConstInt(N<i64>),
    Identifier(N<Ident>),
    Infix(N<InfixEx>),
    Lambda(N<Lam>),
    Let(N<LetEx>),
    Prefix(N<PrefixEx>),
}

impl From<N<PrefixEx>> for Ex {
    fn from(v: N<PrefixEx>) -> (r: Self) {
        Ex::Prefix(v)
    }
}

impl vstd::std_specs::convert::FromSpecImpl<N<PrefixEx>> for Ex {
    open spec fn obeys_from_spec() -> bool {
        true
    }

    open spec fn from_spec(v: N<PrefixEx>) -> Self {
        Ex::Prefix(v)
    }
}

impl From<N<LetEx>> for Ex {
    fn from(v: N<LetEx>) -> (r: Self) {
        Ex::Let(v)
    }
}

impl vstd::std_specs::convert::FromSpecImpl<N<LetEx>> for Ex {
    open spec fn obeys_from_spec() -> bool {
        true
    }

    open spec fn from_spec(v: N<LetEx>) -> Self {
        Ex::Let(v)
    }
}

impl From<N<Lam>> for Ex {
    fn from(v: N<Lam>) -> (r: Self) {
        Ex::Lambda(v)
    }
}

impl vstd::std_specs::convert::FromSpecImpl<N<Lam>> for Ex {
    open spec fn obeys_from_spec() -> bool {
        true
    }

    open spec fn from_spec(v: N<Lam>) -> Self {
        Ex::Lambda(v)
    }
}

impl From<N<InfixEx>> for Ex {
    fn from(v: N<InfixEx>) -> (r: Self) {
        Ex::Infix(v)
    }
}

impl vstd::std_specs::convert::FromSpecImpl<N<InfixEx>> for Ex {
    open spec fn obeys_from_spec() -> bool {
        true
    }

    open spec fn from_spec(v: N<InfixEx>) -> Self {
        Ex::Infix(v)
    }
}

impl From<N<Ident>> for Ex {
    fn from(v: N<Ident>) -> (r: Self) {
        Ex::Identifier(v)
    }
}

impl vstd::std_specs::convert::FromSpecImpl<N<Ident>> for Ex {
    open spec fn obeys_from_spec() -> bool {
        true
    }

    open spec fn from_spec(v: N<Ident>) -> Self {
        Ex::Identifier(v)
    }
}

impl From<N<i64>> for Ex {
    fn from(v: N<i64>) -> (r: Self) {
        Ex::ConstInt(v)
    }
}

impl vstd::std_specs::convert::FromSpecImpl<N<i64>> for Ex {
    open spec fn obeys_from_spec() -> bool {
        true
    }

    open spec fn from_spec(v: N<i64>) -> Self {
        Ex::ConstInt(v)
    }
}

impl From<N<bool>> for Ex {
    fn from(v: N<bool>) -> (r: Self) {
        Ex::ConstBool(v)
    }
}

impl vstd::std_specs::convert::FromSpecImpl<N<bool>> for Ex {
    open spec fn obeys_from_spec() -> bool {
        true
    }

    open spec fn from_spec(v: N<bool>) -> Self {
        Ex::ConstBool(v)
    }
}

impl From<N<Cond>> for Ex {
    fn from(v: N<Cond>) -> (r: Self) {
        Ex::Condition(v)
    }
}

impl vstd::std_specs::convert::FromSpecImpl<N<Cond>> for Ex {
    open spec fn obeys_from_spec() -> bool {
        true
    }

    open spec fn from_spec(v: N<Cond>) -> Self {
        Ex::Condition(v)
    }
}

impl From<N<Bind>> for Ex {
    fn from(v: N<Bind>) -> (r: Self) {
        Ex::Binding(v)
    }
}

impl vstd::std_specs::convert::FromSpecImpl<N<Bind>> for Ex {
    open spec fn obeys_from_spec() -> bool {
        true
    }

    open spec fn from_spec(v: N<Bind>) -> Self {
        Ex::Binding(v)
    }
}

impl From<N<Ap>> for Ex {
    fn from(v: N<Ap>) -> (r: Self) {
        Ex::Application(v)
    }
}

impl vstd::std_specs::convert::FromSpecImpl<N<Ap>> for Ex {
    open spec fn obeys_from_spec() -> bool {
        true
    }

    open spec fn from_spec(v: N<Ap>) -> Self {
        Ex::Application(v)
    }
}

/// The expressions of one source text, in order.
#[derive(Debug, PartialEq)]
pub struct CompilationUnit {
    pub nodes: Vec<Ex>,
}

/// A piece of source text with the range that it was read from: the
/// mathematical value of an identifier or operator node.
pub struct Token {
    pub text: Seq<char>,
    pub range: CstRange,
}

/// The mathematical value of a definition.
pub struct BindView {
    pub lhs: Token,
    pub params: Seq<Token>,
    pub rhs: Box<AstView>,
    pub range: CstRange,
}

/// The mathematical value of an expression as written.
pub enum AstView {
    Application { receiver: Box<AstView>, args: Seq<AstView>, range: CstRange },
    Binding(BindView),
    Condition { pred: Box<AstView>, thn: Box<AstView>, els: Box<AstView>, range: CstRange },
    ConstBool { flag: bool, range: CstRange },
    ConstInt { value: i64, range: CstRange },
    Identifier(Token),
    Infix { op: Token, lhs: Box<AstView>, rhs: Box<AstView>, range: CstRange },
    Lambda { params: Seq<Token>, body: Box<AstView>, range: CstRange },
    Let { bindings: Seq<BindView>, body: Box<AstView>, range: CstRange },
    Prefix { op: Token, body: Box<AstView>, range: CstRange },
}

/// The value of an identifier node.
pub open spec fn ident_view(n: N<Ident>) -> Token {
    Token { text: n.t.0@, range: n.range() }
}

/// The value of an operator node.
pub open spec fn operator_view(n: N<Operator>) -> Token {
    Token { text: n.t.0@, range: n.range() }
}

/// The values of a list of identifier nodes, in order.
pub open spec fn ident_views(ids: Seq<N<Ident>>) -> Seq<Token> {
    Seq::new(ids.len(), |i: int| ident_view(ids[i]))
}

impl Ex {
    /// The mathematical value of this expression.
    pub open spec fn model(self) -> AstView
        decreases self, 1nat,
    {
        match self {
            Ex::Application(n) => AstView::Application {
                receiver: Box::new(n.t.receiver.model()),
                args: Seq::new(
                    n.t.args.len() as nat,
                    |i: int|
                        if 0 <= i < n.t.args.len() {
                            n.t.args[i].model()
                        } else {
                            AstView::ConstBool { flag: false, range: n.range() }
                        },
                ),
                range: n.range(),
            },
            Ex::Binding(n) => AstView::Binding(bind_model(n)),
            Ex::Condition(n) => AstView::Condition {
                pred: Box::new(n.t.pred.model()),
                thn: Box::new(n.t.thn.model()),
                els: Box::new(n.t.els.model()),
                range: n.range(),
            },
            Ex::ConstBool(n) => AstView::ConstBool { flag: *n.t, range: n.range() },
            Ex::ConstInt(n) => AstView::ConstInt { value: *n.t, range: n.range() },
            Ex::Identifier(n) => AstView::Identifier(ident_view(n)),
            Ex::Infix(n) => AstView::Infix {
                op: operator_view(n.t.op),
                lhs: Box::new(n.t.lhs.model()),
                rhs: Box::new(n.t.rhs.model()),
                range: n.range(),
            },
            Ex::Lambda(n) => AstView::Lambda {
                params: ident_views(n.t.params@),
                body: Box::new(n.t.body.model()),
                range: n.range(),
            },
            Ex::Let(n) => AstView::Let {
                bindings: Seq::new(
                    n.t.bindings.len() as nat,
                    |i: int|
                        if 0 <= i < n.t.bindings.len() {
                            bind_model(n.t.bindings[i])
                        } else {
                            arbitrary()
                        },
                ),
                body: Box::new(n.t.body.model()),
                range: n.range(),
            },
            Ex::Prefix(n) => AstView::Prefix {
                op: operator_view(n.t.op),
                body: Box::new(n.t.body.model()),
                range: n.range(),
            },
        }
    }
}

/// The mathematical value of a definition node.
pub open spec fn bind_model(n: N<Bind>) -> BindView
    decreases n, 0nat,
{
    BindView {
        lhs: ident_view(n.t.lhs),
        params: ident_views(n.t.params@),
        rhs: Box::new(n.t.rhs.model()),
        range: n.range(),
    }
}

impl View for Ex {
    type V = AstView;

    open spec fn view(&self) -> AstView {
        self.model()
    }
}

/// The values of a list of expressions, in order.
pub open spec fn ex_views(exs: Seq<Ex>) -> Seq<AstView> {
    Seq::new(exs.len(), |i: int| exs[i]@)
}

/// The values of a list of definition nodes, in order.
pub open spec fn bind_views(binds: Seq<N<Bind>>) -> Seq<BindView> {
    Seq::new(binds.len(), |i: int| bind_model(binds[i]))
}

impl View for CompilationUnit {
    type V = Seq<AstView>;

    open spec fn view(&self) -> Seq<AstView> {
        ex_views(self.nodes@)
    }
}

} // verus!
