//! Texts of type tags and typed expressions, for people to read.

use crate::builtin::BuiltinName;
use crate::interp::{Fault, FaultView};
use crate::text::str_eq;
use crate::tast::{name_view, name_views, Application, Binding, Condition, Ex, ExView, Lambda, NameDef, NameView, N};
use crate::literal::{
    int_of, literal_value, scan, strip_separators, IntError, DIGIT_ZERO, MINUS_SIGN, SEPARATOR,
};
use crate::text::{decimal, decimal_text, digit};
use crate::ty::{Ty, TyView};
use vstd::prelude::*;
use vstd::string::*;
use vstd::utf8::{encode_utf8, is_ascii_chars, is_ascii_chars_encode_utf8};

verus! {

/// The texts `parts` joined into one, with `sep` between each two.
pub open spec fn joined(parts: Seq<Seq<char>>, sep: Seq<char>) -> Seq<char>
    decreases parts.len(),
{
    if parts.len() == 0 {
        Seq::empty()
    } else if parts.len() == 1 {
        parts[0]
    } else {
        joined(parts.drop_last(), sep) + sep + parts.last()
    }
}

/// The text `s` with four blanks before the first character of each line
/// that has one. A line ends with a line feed; an empty line stays empty.
pub open spec fn indented_from(s: Seq<char>, line_start: bool) -> Seq<char>
    decreases s.len(),
{
    if s.len() == 0 {
        Seq::empty()
    } else if s[0] == '\n' {
        seq!['\n'] + indented_from(s.drop_first(), true)
    } else if line_start {
        seq![' ', ' ', ' ', ' ', s[0]] + indented_from(s.drop_first(), false)
    } else {
        seq![s[0]] + indented_from(s.drop_first(), false)
    }
}

/// The text `s` with each of its lines indented by four blanks.
pub open spec fn indented_text(s: Seq<char>) -> Seq<char> {
    indented_from(s, true)
}

/// `indented::indented` wraps a value so that, when it is formatted, four
/// blanks are written before the first character of every line that is not
/// empty; the line feeds are written as they are.
#[verifier::external_body]
fn indent(text: &str) -> (r: String)
    ensures
        r@ == indented_text(text@),
{
    format!("{}", indented::indented(text))
}

/// The texts of the parameter types `par`, in order.
pub open spec fn ty_texts(par: Seq<TyView>) -> Seq<Seq<char>>
    decreases par, 0nat,
{
    Seq::new(
        par.len(),
        |i: int|
            if 0 <= i < par.len() {
                ty_text(par[i])
            } else {
                Seq::empty()
            },
    )
}

/// The text of a type tag: `Int`, `Bool`, or the parameter types in round
/// brackets, an arrow and the return type.
pub open spec fn ty_text(t: TyView) -> Seq<char>
    decreases t, 1nat,
{
    match t {
        TyView::Int => "Int"@,
        TyView::Bool => "Bool"@,
        TyView::F { par, ret } => "("@ + joined(ty_texts(par), ", "@) + ") -> "@ + ty_text(*ret),
    }
}

/// The text of a user-defined name with its type.
pub open spec fn name_text(n: NameView) -> Seq<char> {
    "Name "@ + n.name + ": "@ + ty_text(n.ty)
}

/// The text of the name of a builtin operation with its type.
pub open spec fn builtin_text(n: NameView) -> Seq<char> {
    "BuiltinName "@ + n.name + ": "@ + ty_text(n.ty)
}

/// The texts of the names `names`, in order.
pub open spec fn name_texts(names: Seq<NameView>) -> Seq<Seq<char>> {
    Seq::new(names.len(), |i: int| name_text(names[i]))
}

/// The decimal notation of an integer, with a minus sign where it is
/// negative.
pub open spec fn int_text(i: int) -> Seq<char> {
    if i < 0 {
        "-"@ + decimal((-i) as nat)
    } else {
        decimal(i as nat)
    }
}

/// The indented texts of the arguments `args`, in order.
pub open spec fn arg_texts(args: Seq<ExView>) -> Seq<Seq<char>>
    decreases args, 0nat,
{
    Seq::new(
        args.len(),
        |i: int|
            if 0 <= i < args.len() {
                indented_text(ex_text(args[i]))
            } else {
                Seq::empty()
            },
    )
}

/// The text of a typed expression. What stands below a definition, a
/// function literal or an application is indented.
pub open spec fn ex_text(e: ExView) -> Seq<char>
    decreases e, 1nat,
{
    match e {
        ExView::Bind { name, ex, ty } => "Binding "@ + name_text(name) + " = \n"@ + indented_text(
            ex_text(*ex),
        ),
        ExView::Lam { bound, free, body, ty } => "λ ("@ + joined(name_texts(bound), ","@) + "): "@
            + ty_text(ty) + ",\n"@ + indented_text(ex_text(*body)),
        ExView::Ap { ex, args, ty } => "App "@ + ex_text(*ex) + ": "@ + ty_text(ty) + "\n"@ + joined(
            arg_texts(args),
            "\n"@,
        ),
        ExView::Cond { pred, thn, els, ty } => "if "@ + ex_text(*pred) + "\nthen "@ + ex_text(*thn)
            + "\nelse "@ + ex_text(*els),
        ExView::URef(n) => name_text(n),
        ExView::BRef(n) => builtin_text(n),
        ExView::ConstInt(i) => int_text(i as int),
        ExView::ConstBool(b) => if b {
            "true"@
        } else {
            "false"@
        },
    }
}

/// Adds `part` to the joined text `s` of the `k` parts before it.
fn push_part(s: &mut String, part: &str, sep: &str, Ghost(parts): Ghost<Seq<Seq<char>>>, k: usize)
    requires
        0 <= k < parts.len(),
        old(s)@ == joined(parts.take(k as int), sep@),
        part@ == parts[k as int],
    ensures
        final(s)@ == joined(parts.take(k + 1), sep@),
{
    proof {
        assert(parts.take(k + 1).drop_last() =~= parts.take(k as int));
    }
    if k > 0 {
        s.append(sep);
    }
    s.append(part);
}

impl Ty {
    /// The text of this tag.
    pub fn to_string(&self) -> (s: String)
        ensures
            s@ == ty_text(self@),
        decreases self,
    {
        match self {
            Ty::Int => "Int".to_owned(),
            Ty::Bool => "Bool".to_owned(),
            Ty::F { par, ret } => {
                let ghost parts = ty_texts(self@->par);
                let mut list = String::new();
                let mut i: usize = 0;
                while i < par.len()
                    invariant
                        i <= par.len(),
                        self@->par.len() == par.len(),
                        forall|j: int| 0 <= j < par.len() ==> self@->par[j] == par[j]@,
                        parts == ty_texts(self@->par),
                        list@ == joined(parts.take(i as int), ", "@),
                        forall|j: int| 0 <= j < par.len() ==> decreases_to!(self => par[j]),
                    decreases par.len() - i,
                {
                    let part = par[i].to_string();
                    push_part(&mut list, part.as_str(), ", ", Ghost(parts), i);
                    i += 1;
                }
                proof {
                    assert(parts.take(i as int) =~= parts);
                }
                let mut s = "(".to_owned();
                s.append(list.as_str());
                s.append(") -> ");
                s.append(ret.to_string().as_str());
                s
            },
        }
    }
}

impl N<NameDef> {
    /// The text of this name with its type.
    pub fn to_string(&self) -> (s: String)
        ensures
            s@ == name_text(name_view(*self)),
    {
        let mut s = "Name ".to_owned();
        s.append(self.t.0.as_str());
        s.append(": ");
        s.append(self.ty.to_string().as_str());
        s
    }
}

impl N<BuiltinName> {
    /// The text of this builtin operation's name with its type.
    pub fn to_string(&self) -> (s: String)
        ensures
            s@ == builtin_text(NameView { name: self.t@, ty: self.ty@ }),
    {
        let mut s = "BuiltinName ".to_owned();
        s.append(*self.t);
        s.append(": ");
        s.append(self.ty.to_string().as_str());
        s
    }
}

/// The decimal notation of `i`, with a minus sign where it is negative.
pub fn int_to_string(i: i64) -> (s: String)
    ensures
        s@ == int_text(i as int),
{
    if i < 0 {
        let magnitude: u64 = (-(i as i128)) as u64;
        let mut s = "-".to_owned();
        s.append(decimal_text(magnitude).as_str());
        s
    } else {
        decimal_text(i as u64)
    }
}

impl N<Lambda> {
    /// The text of this function literal.
    pub fn to_string(&self) -> (s: String)
        ensures
            s@ == ex_text(
                ExView::Lam {
                    bound: name_views(self.t.bound@),
                    free: name_views(self.t.free@),
                    body: Box::new(self.t.body@),
                    ty: self.ty@,
                },
            ),
        decreases self,
    {
        let ghost parts = name_texts(name_views(self.t.bound@));
        let mut bounds = String::new();
        let mut i: usize = 0;
        while i < self.t.bound.len()
            invariant
                i <= self.t.bound.len(),
                parts == name_texts(name_views(self.t.bound@)),
                bounds@ == joined(parts.take(i as int), ","@),
            decreases self.t.bound.len() - i,
        {
            let part = self.t.bound[i].to_string();
            push_part(&mut bounds, part.as_str(), ",", Ghost(parts), i);
            i += 1;
        }
        proof {
            assert(parts.take(i as int) =~= parts);
        }
        let mut s = "λ (".to_owned();
        s.append(bounds.as_str());
        s.append("): ");
        s.append(self.ty.to_string().as_str());
        s.append(",\n");
        s.append(indent(self.t.body.to_string().as_str()).as_str());
        s
    }
}

impl N<Binding> {
    /// The text of this definition.
    pub fn to_string(&self) -> (s: String)
        ensures
            s@ == ex_text(
                ExView::Bind {
                    name: name_view(self.t.name),
                    ex: Box::new(self.t.ex@),
                    ty: self.ty@,
                },
            ),
        decreases self,
    {
        let mut s = "Binding ".to_owned();
        s.append(self.t.name.to_string().as_str());
        s.append(" = \n");
        s.append(indent(self.t.ex.to_string().as_str()).as_str());
        s
    }
}

impl N<Application> {
    /// The text of this application.
    pub fn to_string(&self) -> (s: String)
        ensures
            s@ == ex_text(Ex::Ap(*self)@),
        decreases self,
    {
        let ghost args = Ex::Ap(*self)@->Ap_args;
        let ghost parts = arg_texts(args);
        let mut list = String::new();
        let mut i: usize = 0;
        while i < self.t.args.len()
            invariant
                i <= self.t.args.len(),
                args.len() == self.t.args.len(),
                forall|j: int| 0 <= j < args.len() ==> args[j] == self.t.args[j]@,
                parts == arg_texts(args),
                list@ == joined(parts.take(i as int), "\n"@),
                forall|j: int| 0 <= j < self.t.args.len() ==> decreases_to!(self => self.t.args[j]),
            decreases self.t.args.len() - i,
        {
            let part = indent(self.t.args[i].to_string().as_str());
            push_part(&mut list, part.as_str(), "\n", Ghost(parts), i);
            i += 1;
        }
        proof {
            assert(parts.take(i as int) =~= parts);
        }
        let mut s = "App ".to_owned();
        s.append(self.t.ex.to_string().as_str());
        s.append(": ");
        s.append(self.ty.to_string().as_str());
        s.append("\n");
        s.append(list.as_str());
        s
    }
}

impl N<Condition> {
    /// The text of this conditional.
    pub fn to_string(&self) -> (s: String)
        ensures
            s@ == ex_text(
                ExView::Cond {
                    pred: Box::new(self.t.pred@),
                    thn: Box::new(self.t.thn@),
                    els: Box::new(self.t.els@),
                    ty: self.ty@,
                },
            ),
        decreases self,
    {
        let mut s = "if ".to_owned();
        s.append(self.t.pred.to_string().as_str());
        s.append("\nthen ");
        s.append(self.t.thn.to_string().as_str());
        s.append("\nelse ");
        s.append(self.t.els.to_string().as_str());
        s
    }
}

impl Ex {
    /// The text of this expression.
    pub fn to_string(&self) -> (s: String)
        ensures
            s@ == ex_text(self@),
        decreases self,
    {
        match self {
            Ex::Bind(b) => b.to_string(),
            Ex::Lam(l) => l.to_string(),
            Ex::Ap(a) => a.to_string(),
            Ex::Cond(c) => c.to_string(),
            Ex::URef(r) => r.to_string(),
            Ex::BRef(r) => r.to_string(),
            Ex::ConstInt(i) => int_to_string(*i),
            Ex::ConstBool(b) => if *b {
                "true".to_owned()
            } else {
                "false".to_owned()
            },
        }
    }
}

/// What the builtin operation `op` could not do, in words.
pub open spec fn refusal_text(op: Seq<char>) -> Seq<char> {
    if op == "plus"@ {
        "Cannot add "@
    } else if op == "minus"@ {
        "Cannot subtract "@
    } else {
        "Cannot compare "@
    }
}

/// The name of the arithmetic that the builtin operation `op` does.
pub open spec fn arithmetic_text(op: Seq<char>) -> Seq<char> {
    if op == "plus"@ {
        "add"@
    } else {
        "subtract"@
    }
}

/// The message that describes a fault.
pub open spec fn fault_text(f: FaultView) -> Seq<char> {
    match f {
        FaultView::UnknownName(n) => "Unkown name: "@ + name_text(n),
        FaultView::TypeMismatch { op, lhs, rhs } => refusal_text(op) + "\n1: "@ + ex_text(lhs)
            + "\n2: "@ + ex_text(rhs),
        FaultView::ArityMismatch { expected, given } => "Wrong number of arguments: expected "@
            + decimal(expected) + ", given "@ + decimal(given),
        FaultView::NotApplicable(e) => "Unexpected application expression: "@ + ex_text(e),
        FaultView::NonBoolPredicate(e) => "Unexpected boolean expression: "@ + ex_text(e),
        FaultView::UnknownBuiltin(n) => "Unknown builtin name: "@ + n.name,
        FaultView::Overflow { op, lhs, rhs } => "attempt to "@ + arithmetic_text(op)
            + " with overflow"@,
        FaultView::DepthExceeded => "Evaluation is nested too deep"@,
    }
}

impl Fault {
    /// The message that describes this fault.
    pub fn message(&self) -> (s: String)
        ensures
            s@ == fault_text(self@),
    {
        match self {
            Fault::UnknownName(n) => {
                let mut s = "Unkown name: ".to_owned();
                s.append(n.to_string().as_str());
                s
            },
            Fault::TypeMismatch { op, lhs, rhs } => {
                let mut s = if str_eq(op, "plus") {
                    "Cannot add ".to_owned()
                } else if str_eq(op, "minus") {
                    "Cannot subtract ".to_owned()
                } else {
                    "Cannot compare ".to_owned()
                };
                s.append("\n1: ");
                s.append(lhs.to_string().as_str());
                s.append("\n2: ");
                s.append(rhs.to_string().as_str());
                s
            },
            Fault::ArityMismatch { expected, given } => {
                let mut s = "Wrong number of arguments: expected ".to_owned();
                s.append(decimal_text(*expected as u64).as_str());
                s.append(", given ");
                s.append(decimal_text(*given as u64).as_str());
                s
            },
            Fault::NotApplicable(e) => {
                let mut s = "Unexpected application expression: ".to_owned();
                s.append(e.to_string().as_str());
                s
            },
            Fault::NonBoolPredicate(e) => {
                let mut s = "Unexpected boolean expression: ".to_owned();
                s.append(e.to_string().as_str());
                s
            },
            Fault::UnknownBuiltin(n) => {
                let mut s = "Unknown builtin name: ".to_owned();
                s.append(*n.t);
                s
            },
            Fault::Overflow { op, lhs, rhs } => {
                let mut s = "attempt to ".to_owned();
                if str_eq(op, "plus") {
                    s.append("add");
                } else {
                    s.append("subtract");
                }
                s.append(" with overflow");
                s
            },
            Fault::DepthExceeded => "Evaluation is nested too deep".to_owned(),
        }
    }
}

/// The bytes of the decimal notation of `n` are its digits, each as the
/// byte of that digit, the lowest digit last.
pub proof fn lemma_decimal_bytes(n: nat)
    ensures
        is_ascii_chars(decimal(n)),
        encode_utf8(decimal(n)).len() == decimal(n).len(),
        forall|k: int|
            0 <= k < decimal(n).len() ==> DIGIT_ZERO <= #[trigger] encode_utf8(decimal(n))[k]
                <= DIGIT_ZERO + 9,
        encode_utf8(decimal(n)).last() == DIGIT_ZERO + n % 10,
        n >= 10 ==> encode_utf8(decimal(n)).drop_last() == encode_utf8(decimal(n / 10)),
    decreases n,
{
    let text = decimal(n);
    if n >= 10 {
        lemma_decimal_bytes(n / 10);
        let before = decimal(n / 10);
        assert forall|k: int| 0 <= k < text.len() implies '\0' <= #[trigger] text[k] <= '\u{7f}' by {}
        is_ascii_chars_encode_utf8(text);
        is_ascii_chars_encode_utf8(before);
        assert(encode_utf8(text).drop_last() =~= encode_utf8(before));
    } else {
        is_ascii_chars_encode_utf8(text);
    }
}

/// A scan looks at the digits that it is asked to read and at no others.
pub proof fn lemma_scan_reads_prefix(a: Seq<u8>, b: Seq<u8>, negative: bool, k: int)
    requires
        0 <= k <= a.len(),
        k <= b.len(),
        forall|i: int| 0 <= i < k ==> a[i] == b[i],
    ensures
        scan(a, negative, k) == scan(b, negative, k),
    decreases k,
{
    if k > 0 {
        lemma_scan_reads_prefix(a, b, negative, k - 1);
    }
}

/// Reading the decimal notation of a number gives the number, or its
/// negative where that is asked for.
pub proof fn lemma_scan_of_decimal(n: nat, negative: bool)
    requires
        n <= i64::MAX || (negative && n <= i64::MAX + 1),
    ensures
        scan(encode_utf8(decimal(n)), negative, decimal(n).len() as int) == Ok::<int, IntError>(
            if negative {
                -(n as int)
            } else {
                n as int
            },
        ),
    decreases n,
{
    let bytes = encode_utf8(decimal(n));
    lemma_decimal_bytes(n);
    if n >= 10 {
        let before = encode_utf8(decimal(n / 10));
        lemma_decimal_bytes(n / 10);
        lemma_scan_of_decimal(n / 10, negative);
        lemma_scan_reads_prefix(bytes, before, negative, before.len() as int);
    } else {
        assert(scan(bytes, negative, 0) == Ok::<int, IntError>(0));
    }
}

/// Bytes without a separator among them stay as they are when the
/// separators are dropped.
pub proof fn lemma_nothing_to_strip(bytes: Seq<u8>)
    requires
        forall|i: int| 0 <= i < bytes.len() ==> #[trigger] bytes[i] != SEPARATOR,
    ensures
        strip_separators(bytes) == bytes,
    decreases bytes.len(),
{
    if bytes.len() > 0 {
        lemma_nothing_to_strip(bytes.drop_last());
    }
}

/// The text of an integer constant, read as a literal, is that constant.
pub proof fn lemma_integer_text_reads_back(i: i64)
    ensures
        literal_value(int_text(i as int)) == Ok::<i64, IntError>(i),
{
    if i >= 0 {
        let n = i as nat;
        let bytes = encode_utf8(decimal(n));
        lemma_decimal_bytes(n);
        lemma_scan_of_decimal(n, false);
        assert forall|k: int| 0 <= k < bytes.len() implies #[trigger] bytes[k] != SEPARATOR by {}
        lemma_nothing_to_strip(bytes);
    } else {
        let n = (-(i as int)) as nat;
        let digits = encode_utf8(decimal(n));
        let text = "-"@ + decimal(n);
        let bytes = encode_utf8(text);
        reveal_strlit("-");
        lemma_decimal_bytes(n);
        lemma_scan_of_decimal(n, true);
        assert forall|k: int| 0 <= k < text.len() implies '\0' <= #[trigger] text[k] <= '\u{7f}' by {}
        is_ascii_chars_encode_utf8(text);
        is_ascii_chars_encode_utf8(decimal(n));
        assert(bytes.drop_first() =~= digits);
        lemma_nothing_to_strip(bytes);
    }
}

} // verus!
