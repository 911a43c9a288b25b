//! The tree-walking evaluator and the persistent environment it runs in.

use crate::builtin::{builtin_arity, is_builtin, BuiltinName};
use crate::tast::{ex_views, Ex, ExView, NameDef, NameView, N};
use crate::text::str_eq;
use rpds::HashTrieMap;
use vstd::prelude::*;

verus! {

/// The persistent hash trie that holds an environment's bindings, keyed by
/// the text of the name.
#[verifier::external_body]
#[derive(Debug)]
pub struct Store {
    trie: HashTrieMap<String, Ex>,
}

/// The bindings that a store holds, each key by its text.
pub uninterp spec fn bindings(s: Store) -> Map<Seq<char>, Ex>;

/// `HashTrieMap::new` builds a map without entries.
#[verifier::external_body]
fn store_new() -> (s: Store)
    ensures
        bindings(s) =~= Map::empty(),
{
    Store { trie: HashTrieMap::new() }
}

/// `HashTrieMap::clone` shares the trie of the map it is given: the copy
/// holds the same bindings.
#[verifier::external_body]
fn store_clone(s: &Store) -> (r: Store)
    ensures
        bindings(r) == bindings(*s),
{
    Store { trie: s.trie.clone() }
}

/// `HashTrieMap::insert` leaves the receiver as it is and returns a map that
/// holds the receiver's bindings and, in place of any binding of `key`, the
/// new one.
#[verifier::external_body]
fn store_insert(s: &Store, key: String, value: Ex) -> (r: Store)
    ensures
        bindings(r) == bindings(*s).insert(key@, value),
{
    Store { trie: s.trie.insert(key, value) }
}

/// `HashTrieMap::insert_mut` adds the binding in place, replacing any
/// binding of `key`.
#[verifier::external_body]
fn store_insert_mut(s: &mut Store, key: String, value: Ex)
    ensures
        bindings(*final(s)) == bindings(*old(s)).insert(key@, value),
{
    s.trie.insert_mut(key, value)
}

/// `HashTrieMap::get` returns the value bound to `key`, if there is one.
#[verifier::external_body]
fn store_get<'a>(s: &'a Store, key: &str) -> (r: Option<&'a Ex>)
    ensures
        r == (if bindings(*s).contains_key(key@) {
            Some(&bindings(*s)[key@])
        } else {
            None
        }),
{
    s.trie.get(key)
}

/// A persistent, immutable mapping from names to expressions.
#[derive(Debug)]
pub struct Env {
    mapping: Store,
}

impl View for Env {
    type V = Map<Seq<char>, ExView>;

    closed spec fn view(&self) -> Map<Seq<char>, ExView> {
        Map::new(
            |k: Seq<char>| bindings(self.mapping).contains_key(k),
            |k: Seq<char>| bindings(self.mapping)[k]@,
        )
    }
}

impl Clone for Env {
    fn clone(&self) -> (r: Self)
        ensures
            r@ == self@,
    {
        Env { mapping: store_clone(&self.mapping) }
    }
}

/// The environment `env` extended by the bindings of `names` to `values`,
/// position by position from the left, so that of two bindings of one name
/// the later one stands.
pub open spec fn bind_all(
    env: Map<Seq<char>, ExView>,
    names: Seq<Seq<char>>,
    values: Seq<ExView>,
) -> Map<Seq<char>, ExView>
    decreases names.len(),
{
    if names.len() == 0 || values.len() == 0 {
        env
    } else {
        bind_all(env, names.drop_last(), values.drop_last()).insert(names.last(), values.last())
    }
}

/// The texts of a list of names, in order.
pub open spec fn name_texts(names: Seq<&NameDef>) -> Seq<Seq<char>> {
    Seq::new(names.len(), |i: int| names[i]@)
}

impl Env {
    /// The environment without bindings.
    pub fn new() -> (e: Env)
        ensures
            e@ == Map::<Seq<char>, ExView>::empty(),
    {
        let e = Env { mapping: store_new() };
        e
    }

    /// The environment that binds `name` to `ex` and otherwise agrees with
    /// this one, which stays as it is.
    pub fn bind(&self, name: &NameDef, ex: Ex) -> (e: Env)
        ensures
            e@ == self@.insert(name@, ex@),
    {
        let mapping = store_insert(&self.mapping, name.0.clone(), ex);
        let e = Env { mapping };
        e
    }

    /// The environment that binds each of `names` to the value at the same
    /// position in `exs`, in order, and otherwise agrees with this one.
    pub fn bind_many(&self, names: &[&NameDef], exs: &[Ex]) -> (e: Env)
        requires
            names.len() == exs.len(),
        ensures
            e@ == bind_all(self@, name_texts(names@), ex_views(exs@)),
    {
        let mut mapping = store_clone(&self.mapping);
        let ghost ns = name_texts(names@);
        let ghost vs = ex_views(exs@);
        let mut i: usize = 0;
        while i < names.len()
            invariant
                i <= names.len(),
                names.len() == exs.len(),
                ns == name_texts(names@),
                vs == ex_views(exs@),
                (Env { mapping })@ == bind_all(self@, ns.take(i as int), vs.take(i as int)),
            decreases names.len() - i,
        {
            store_insert_mut(&mut mapping, names[i].0.clone(), exs[i].clone());
            proof {
                assert(ns.take(i + 1).drop_last() =~= ns.take(i as int));
                assert(vs.take(i + 1).drop_last() =~= vs.take(i as int));
            }
            i += 1;
        }
        proof {
            assert(ns.take(i as int) =~= ns);
            assert(vs.take(i as int) =~= vs);
        }
        Env { mapping }
    }

    /// The expression bound to `name`, if there is one.
    pub fn find(&self, name: &NameDef) -> (r: Option<Ex>)
        ensures
            match r {
                Some(ex) => self@.contains_key(name@) && ex@ == self@[name@],
                None => !self@.contains_key(name@),
            },
    {
        match store_get(&self.mapping, name.0.as_str()) {
            Some(ex) => Some(ex.clone()),
            None => None,
        }
    }
}

/// The ways in which an evaluation ends without a value, each with what it
/// was that went wrong.
#[derive(Debug)]
pub enum Fault {
    /// A user-defined name has no binding in the environment.
    UnknownName(N<NameDef>),
    /// An argument of the builtin operation `op` is not an integer constant.
    TypeMismatch { op: BuiltinName, lhs: Ex, rhs: Ex },
    /// The number of arguments is not the number of parameters.
    ArityMismatch { expected: usize, given: usize },
    /// The callee is neither a function literal nor a builtin operation.
    NotApplicable(Ex),
    /// The predicate of a conditional is not a boolean constant.
    NonBoolPredicate(Ex),
    /// A builtin reference names no operation of the table.
    UnknownBuiltin(N<BuiltinName>),
    /// The result of the arithmetic operation `op` does not fit the integer
    /// type.
    Overflow { op: BuiltinName, lhs: i64, rhs: i64 },
    /// The evaluation needs more nested steps than it was given.
    DepthExceeded,
}

/// The mathematical value of a fault.
pub enum FaultView {
    UnknownName(NameView),
    TypeMismatch { op: Seq<char>, lhs: ExView, rhs: ExView },
    ArityMismatch { expected: nat, given: nat },
    NotApplicable(ExView),
    NonBoolPredicate(ExView),
    UnknownBuiltin(NameView),
    Overflow { op: Seq<char>, lhs: i64, rhs: i64 },
    DepthExceeded,
}

impl View for Fault {
    type V = FaultView;

    open spec fn view(&self) -> FaultView {
        match self {
            Fault::UnknownName(n) => FaultView::UnknownName(crate::tast::name_view(*n)),
            Fault::TypeMismatch { op, lhs, rhs } => FaultView::TypeMismatch {
                op: op@,
                lhs: lhs@,
                rhs: rhs@,
            },
            Fault::ArityMismatch { expected, given } => FaultView::ArityMismatch {
                expected: *expected as nat,
                given: *given as nat,
            },
            Fault::NotApplicable(ex) => FaultView::NotApplicable(ex@),
            Fault::NonBoolPredicate(ex) => FaultView::NonBoolPredicate(ex@),
            Fault::UnknownBuiltin(n) => FaultView::UnknownBuiltin(
                NameView { name: n.t@, ty: n.ty@ },
            ),
            Fault::Overflow { op, lhs, rhs } => FaultView::Overflow { op: op@, lhs: *lhs, rhs: *rhs },
            Fault::DepthExceeded => FaultView::DepthExceeded,
        }
    }
}

/// The outcome of an evaluation in the model: a value, or a fault.
pub type Outcome = Result<ExView, FaultView>;

/// The outcome of an evaluation, with the value and the fault taken by
/// their views.
pub open spec fn outcome(r: Result<Ex, Fault>) -> Outcome {
    match r {
        Ok(v) => Ok(v@),
        Err(f) => Err(f@),
    }
}

/// What the builtin operation `name` makes of the evaluated arguments
/// `args`, which must be as many as the operation declares parameters: the
/// sum, the difference or the comparison of two integer constants.
pub open spec fn builtin_result(name: NameView, args: Seq<ExView>) -> Outcome {
    if !is_builtin(name.name) {
        Err(FaultView::UnknownBuiltin(name))
    } else if args.len() != builtin_arity(name.name) {
        Err(FaultView::ArityMismatch { expected: builtin_arity(name.name), given: args.len() })
    } else {
        match (args[0], args[1]) {
            (ExView::ConstInt(a), ExView::ConstInt(b)) => {
                if name.name == "less"@ {
                    Ok(ExView::ConstBool(a < b))
                } else {
                    let n = if name.name == "plus"@ {
                        a + b
                    } else {
                        a - b
                    };
                    if i64::MIN <= n <= i64::MAX {
                        Ok(ExView::ConstInt(n as i64))
                    } else {
                        Err(FaultView::Overflow { op: name.name, lhs: a, rhs: b })
                    }
                }
            },
            _ => Err(FaultView::TypeMismatch { op: name.name, lhs: args[0], rhs: args[1] }),
        }
    }
}

/// The names of a list of parameters, in order.
pub open spec fn param_names(bound: Seq<NameView>) -> Seq<Seq<char>> {
    Seq::new(bound.len(), |i: int| bound[i].name)
}

/// The value of `ex` in the environment `env`, or the fault that ends its
/// evaluation, when at most `depth` evaluations may be nested.
///
/// Evaluation is eager and call-by-value. A function literal captures no
/// environment: its body is evaluated in the environment of the call,
/// extended by its parameters, so a free name in the body means whatever it
/// is bound to where the function is applied.
pub open spec fn eval(ex: ExView, env: Map<Seq<char>, ExView>, depth: nat) -> Outcome
    decreases depth, 0nat,
{
    match ex {
        ExView::ConstInt(_) => Ok(ex),
        ExView::ConstBool(_) => Ok(ex),
        ExView::Lam { .. } => Ok(ex),
        ExView::BRef(_) => Ok(ex),
        ExView::URef(n) => if env.contains_key(n.name) {
            Ok(env[n.name])
        } else {
            Err(FaultView::UnknownName(n))
        },
        ExView::Bind { name, ex: rhs, .. } => if depth == 0 {
            Err(FaultView::DepthExceeded)
        } else {
            eval(*rhs, env.insert(name.name, *rhs), (depth - 1) as nat)
        },
        ExView::Cond { pred, thn, els, .. } => if depth == 0 {
            Err(FaultView::DepthExceeded)
        } else {
            match eval(*pred, env, (depth - 1) as nat) {
                Err(f) => Err(f),
                Ok(ExView::ConstBool(b)) => if b {
                    eval(*thn, env, (depth - 1) as nat)
                } else {
                    eval(*els, env, (depth - 1) as nat)
                },
                Ok(other) => Err(FaultView::NonBoolPredicate(other)),
            }
        },
        ExView::Ap { ex: callee, args, .. } => if depth == 0 {
            Err(FaultView::DepthExceeded)
        } else {
            match eval(*callee, env, (depth - 1) as nat) {
                Err(f) => Err(f),
                Ok(f) => match eval_args(args, env, (depth - 1) as nat) {
                    Err(f) => Err(f),
                    Ok(values) => apply(f, values, env, (depth - 1) as nat),
                },
            }
        },
    }
}

/// The values of `args` in `env`, from left to right, or the fault of the
/// first of them that has one.
pub open spec fn eval_args(args: Seq<ExView>, env: Map<Seq<char>, ExView>, depth: nat) -> Result<
    Seq<ExView>,
    FaultView,
>
    decreases depth, args.len() + 1,
{
    if args.len() == 0 {
        Ok(Seq::empty())
    } else {
        match eval_args(args.drop_last(), env, depth) {
            Err(f) => Err(f),
            Ok(values) => match eval(args.last(), env, depth) {
                Err(f) => Err(f),
                Ok(v) => Ok(values.push(v)),
            },
        }
    }
}

/// The result of applying the evaluated callee `f` to the evaluated
/// arguments `values` in the environment `env` of the call.
pub open spec fn apply(f: ExView, values: Seq<ExView>, env: Map<Seq<char>, ExView>, depth: nat) -> Outcome
    decreases depth, 1nat,
{
    match f {
        ExView::BRef(n) => builtin_result(n, values),
        ExView::Lam { bound, body, .. } => if bound.len() != values.len() {
            Err(FaultView::ArityMismatch { expected: bound.len(), given: values.len() })
        } else {
            eval(*body, bind_all(env, param_names(bound), values), depth)
        },
        _ => Err(FaultView::NotApplicable(f)),
    }
}

/// Applies the builtin operation `name` to the evaluated arguments `args`.
pub fn eval_builtin(name: &N<BuiltinName>, args: &[Ex], _env: &Env) -> (r: Result<Ex, Fault>)
    ensures
        outcome(r) == builtin_result(NameView { name: name.t@, ty: name.ty@ }, ex_views(args@)),
{
    let op: &'static str = *name.t;
    let is_plus = str_eq(op, "plus");
    let is_minus = str_eq(op, "minus");
    let is_less = str_eq(op, "less");
    if !is_plus && !is_minus && !is_less {
        return Err(Fault::UnknownBuiltin(name.clone()));
    }
    if args.len() != 2 {
        return Err(Fault::ArityMismatch { expected: 2, given: args.len() });
    }
    proof {
        crate::builtin::lemma_builtin_names_differ();
    }
    match (&args[0], &args[1]) {
        (Ex::ConstInt(n1), Ex::ConstInt(n2)) => {
            if is_less {
                Ok(Ex::ConstBool(*n1 < *n2))
            } else {
                let sum = if is_plus {
                    n1.checked_add(*n2)
                } else {
                    n1.checked_sub(*n2)
                };
                match sum {
                    Some(n) => Ok(Ex::ConstInt(n)),
                    None => Err(Fault::Overflow { op, lhs: *n1, rhs: *n2 }),
                }
            }
        },
        _ => Err(Fault::TypeMismatch { op, lhs: args[0].clone(), rhs: args[1].clone() }),
    }
}

/// The names of the parameters `bound`, in order.
fn parameters(bound: &Vec<N<NameDef>>) -> (names: Vec<&NameDef>)
    ensures
        names.len() == bound.len(),
        name_texts(names@) == param_names(crate::tast::name_views(bound@)),
{
    let mut names: Vec<&NameDef> = Vec::new();
    let mut i: usize = 0;
    while i < bound.len()
        invariant
            i <= bound.len(),
            names.len() == i,
            forall|j: int| 0 <= j < i ==> names[j]@ == bound[j].t@,
        decreases bound.len() - i,
    {
        names.push(&bound[i].t);
        i += 1;
    }
    names
}

/// The outcome of evaluating a list of arguments, with the values and the
/// fault taken by their views.
pub open spec fn outcomes(r: Result<Vec<Ex>, Fault>) -> Result<Seq<ExView>, FaultView> {
    match r {
        Ok(values) => Ok(ex_views(values@)),
        Err(f) => Err(f@),
    }
}

/// Evaluates the arguments `args` in `env` from left to right, and stops at
/// the first fault.
fn eval_arguments(args: &Vec<Ex>, env: &Env, depth: usize) -> (r: Result<Vec<Ex>, Fault>)
    ensures
        outcomes(r) == eval_args(ex_views(args@), env@, depth as nat),
    decreases depth, 1nat,
{
    let mut values: Vec<Ex> = Vec::new();
    let ghost all = ex_views(args@);
    let mut i: usize = 0;
    proof {
        assert(ex_views(values@) =~= Seq::empty());
    }
    while i < args.len()
        invariant
            i <= args.len(),
            all == ex_views(args@),
            eval_args(all.take(i as int), env@, depth as nat) == Ok::<Seq<ExView>, FaultView>(
                ex_views(values@),
            ),
        decreases args.len() - i,
    {
        proof {
            assert(all.take(i + 1).drop_last() =~= all.take(i as int));
        }
        match eval_ex(args[i].clone(), env, depth) {
            Ok(v) => {
                let ghost before = values@;
                values.push(v);
                proof {
                    assert(ex_views(values@) =~= ex_views(before).push(v@));
                }
            },
            Err(f) => {
                proof {
                    lemma_fault_in_prefix(all, i + 1, env@, depth as nat);
                }
                return Err(f);
            },
        }
        i += 1;
    }
    proof {
        assert(all.take(i as int) =~= all);
    }
    Ok(values)
}

/// A fault among the first `n` arguments is the fault of the whole list.
pub proof fn lemma_fault_in_prefix(
    args: Seq<ExView>,
    n: int,
    env: Map<Seq<char>, ExView>,
    depth: nat,
)
    requires
        0 <= n <= args.len(),
        eval_args(args.take(n), env, depth) is Err,
    ensures
        eval_args(args, env, depth) == eval_args(args.take(n), env, depth),
    decreases args.len() - n,
{
    if n == args.len() {
        assert(args.take(n) =~= args);
    } else {
        assert(args.take(n + 1).drop_last() =~= args.take(n));
        lemma_fault_in_prefix(args, n + 1, env, depth);
    }
}

/// Evaluates `ex` in the environment `env`, nesting at most `depth`
/// evaluations.
///
/// A constant, a function literal and a builtin reference are values. A
/// user-defined name stands for what `env` binds it to. A definition binds
/// its name to its own unevaluated right-hand side and evaluates that side
/// in the extended environment. An application evaluates the callee, then
/// the arguments from left to right, and then applies a builtin operation or
/// evaluates the body of a function literal in the environment of the call
/// extended by the parameters. A conditional evaluates the predicate and
/// then one branch only. An evaluation that would nest deeper than `depth`
/// ends with `Fault::DepthExceeded`; every other outcome is the same for
/// every larger `depth`.
pub fn eval_ex(ex: Ex, env: &Env, depth: usize) -> (r: Result<Ex, Fault>)
    ensures
        outcome(r) == eval(ex@, env@, depth as nat),
    decreases depth, 0nat,
{
    match ex {
        Ex::ConstInt(_) => Ok(ex),
        Ex::ConstBool(_) => Ok(ex),
        Ex::Lam(_) => Ok(ex),
        Ex::BRef(_) => Ok(ex),
        Ex::URef(r) => match env.find(&r.t) {
            Some(v) => Ok(v),
            None => Err(Fault::UnknownName(r)),
        },
        Ex::Bind(b) => {
            if depth == 0 {
                return Err(Fault::DepthExceeded);
            }
            let new_env = env.bind(&b.t.name.t, b.t.ex.clone());
            eval_ex(b.t.ex.clone(), &new_env, depth - 1)
        },
        Ex::Cond(c) => {
            if depth == 0 {
                return Err(Fault::DepthExceeded);
            }
            match eval_ex(c.t.pred.clone(), env, depth - 1) {
                Err(f) => Err(f),
                Ok(Ex::ConstBool(b)) => {
                    if b {
                        eval_ex(c.t.thn.clone(), env, depth - 1)
                    } else {
                        eval_ex(c.t.els.clone(), env, depth - 1)
                    }
                },
                Ok(other) => Err(Fault::NonBoolPredicate(other)),
            }
        },
        Ex::Ap(a) => {
            if depth == 0 {
                return Err(Fault::DepthExceeded);
            }
            assert(ex@->Ap_args =~= ex_views(a.t.args@));
            let callee = match eval_ex(a.t.ex.clone(), env, depth - 1) {
                Ok(f) => f,
                Err(f) => {
                    return Err(f);
                },
            };
            let args = match eval_arguments(&a.t.args, env, depth - 1) {
                Ok(values) => values,
                Err(f) => {
                    return Err(f);
                },
            };
            assert(eval(ex@, env@, depth as nat) == apply(
                callee@,
                ex_views(args@),
                env@,
                (depth - 1) as nat,
            ));
            match callee {
                Ex::BRef(n) => eval_builtin(&n, args.as_slice(), env),
                Ex::Lam(l) => {
                    if l.t.bound.len() != args.len() {
                        return Err(
                            Fault::ArityMismatch { expected: l.t.bound.len(), given: args.len() },
                        );
                    }
                    let bound = parameters(&l.t.bound);
                    let new_env = env.bind_many(bound.as_slice(), args.as_slice());
                    eval_ex(l.t.body.clone(), &new_env, depth - 1)
                },
                other => Err(Fault::NotApplicable(other)),
            }
        },
    }
}

/// A constant evaluates to itself, in every environment and at every depth.
pub proof fn lemma_constant_is_value(n: i64, b: bool, env: Map<Seq<char>, ExView>, depth: nat)
    ensures
        eval(ExView::ConstInt(n), env, depth) == Ok::<ExView, FaultView>(ExView::ConstInt(n)),
        eval(ExView::ConstBool(b), env, depth) == Ok::<ExView, FaultView>(ExView::ConstBool(b)),
{
}

/// The arguments `args` followed by `last` are evaluated by evaluating
/// `args` first and `last` after them.
pub proof fn lemma_eval_args_push(
    args: Seq<ExView>,
    last: ExView,
    env: Map<Seq<char>, ExView>,
    depth: nat,
)
    ensures
        eval_args(args.push(last), env, depth) == (match eval_args(args, env, depth) {
            Err(f) => Err(f),
            Ok(values) => match eval(last, env, depth) {
                Err(f) => Err(f),
                Ok(v) => Ok(values.push(v)),
            },
        }),
{
    assert(args.push(last).drop_last() =~= args);
}

/// Applying `less` to two integer constants gives the boolean constant that
/// says whether the first is below the second.
pub proof fn lemma_less_compares(
    a: i64,
    b: i64,
    less: NameView,
    ty: crate::ty::TyView,
    env: Map<Seq<char>, ExView>,
    depth: nat,
)
    requires
        less.name == "less"@,
        depth >= 1,
    ensures
        eval(
            ExView::Ap {
                ex: Box::new(ExView::BRef(less)),
                args: seq![ExView::ConstInt(a), ExView::ConstInt(b)],
                ty,
            },
            env,
            depth,
        ) == Ok::<ExView, FaultView>(ExView::ConstBool(a < b)),
{
    let d = (depth - 1) as nat;
    let none = Seq::<ExView>::empty();
    let one = none.push(ExView::ConstInt(a));
    let two = one.push(ExView::ConstInt(b));
    lemma_eval_args_push(none, ExView::ConstInt(a), env, d);
    lemma_eval_args_push(one, ExView::ConstInt(b), env, d);
    assert(two =~= seq![ExView::ConstInt(a), ExView::ConstInt(b)]);
    assert(eval(ExView::BRef(less), env, d) == Ok::<ExView, FaultView>(ExView::BRef(less)));
    assert(apply(ExView::BRef(less), two, env, d) == Ok::<ExView, FaultView>(
        ExView::ConstBool(a < b),
    ));
}

/// A conditional whose predicate evaluates to a boolean constant has the
/// outcome of the branch that the constant selects, whatever the other
/// branch is: the other branch is not evaluated, and a fault that it would
/// raise does not surface.
pub proof fn lemma_conditional_takes_one_branch(
    pred: ExView,
    thn: ExView,
    els: ExView,
    ty: crate::ty::TyView,
    env: Map<Seq<char>, ExView>,
    depth: nat,
    b: bool,
)
    requires
        depth >= 1,
        eval(pred, env, (depth - 1) as nat) == Ok::<ExView, FaultView>(ExView::ConstBool(b)),
    ensures
        eval(ExView::Cond { pred: Box::new(pred), thn: Box::new(thn), els: Box::new(els), ty }, env, depth)
            == eval(
            if b {
                thn
            } else {
                els
            },
            env,
            (depth - 1) as nat,
        ),
{
}

/// Binding a name again shadows the earlier binding in the new environment
/// only: the environment that it was derived from still gives the earlier
/// value.
pub proof fn lemma_rebinding_leaves_base(
    e1: Map<Seq<char>, ExView>,
    x: Seq<char>,
    a: ExView,
    b: ExView,
)
    ensures
        e1.insert(x, a).insert(x, b).contains_key(x),
        e1.insert(x, a).insert(x, b)[x] == b,
        e1.insert(x, a).contains_key(x),
        e1.insert(x, a)[x] == a,
        forall|y: Seq<char>| y != x ==> e1.insert(x, a).contains_key(y) == e1.contains_key(y),
        forall|y: Seq<char>| y != x && e1.contains_key(y) ==> e1.insert(x, a)[y] == e1[y],
{
}

/// Evaluated arguments are as many as the arguments.
pub proof fn lemma_eval_args_len(args: Seq<ExView>, env: Map<Seq<char>, ExView>, depth: nat)
    ensures
        eval_args(args, env, depth) matches Ok(values) ==> values.len() == args.len(),
    decreases args.len(),
{
    if args.len() > 0 {
        lemma_eval_args_len(args.drop_last(), env, depth);
    }
}

/// Applying a function literal to a number of arguments other than the
/// number of its parameters is an arity fault, once the callee and the
/// arguments have been evaluated: no argument is dropped and none is made
/// up.
pub proof fn lemma_arity_mismatch_is_a_fault(
    callee: ExView,
    args: Seq<ExView>,
    ty: crate::ty::TyView,
    env: Map<Seq<char>, ExView>,
    depth: nat,
)
    requires
        depth >= 1,
        eval(callee, env, (depth - 1) as nat) matches Ok(f) && f is Lam && f->bound.len() != args.len(),
        eval_args(args, env, (depth - 1) as nat) is Ok,
    ensures
        eval(ExView::Ap { ex: Box::new(callee), args, ty }, env, depth) == Err::<ExView, FaultView>(
            FaultView::ArityMismatch {
                expected: eval(callee, env, (depth - 1) as nat)->Ok_0->bound.len(),
                given: args.len(),
            },
        ),
{
    let d = (depth - 1) as nat;
    lemma_eval_args_len(args, env, d);
    let f = eval(callee, env, d)->Ok_0;
    let values = eval_args(args, env, d)->Ok_0;
    assert(apply(f, values, env, d) == Err::<ExView, FaultView>(
        FaultView::ArityMismatch { expected: f->bound.len(), given: args.len() },
    ));
}

/// Whether an outcome is something other than running out of depth.
pub open spec fn settled<A>(r: Result<A, FaultView>) -> bool {
    r != Err::<A, FaultView>(FaultView::DepthExceeded)
}

/// The depth is a bound and nothing more: an evaluation that ends within
/// `depth` nested steps, with a value or with a fault, ends in the same way
/// when more steps are allowed.
pub proof fn lemma_depth_is_only_a_bound(
    ex: ExView,
    env: Map<Seq<char>, ExView>,
    depth: nat,
    more: nat,
)
    requires
        depth <= more,
        settled(eval(ex, env, depth)),
    ensures
        eval(ex, env, more) == eval(ex, env, depth),
    decreases depth, 0nat,
{
    match ex {
        ExView::Bind { name, ex: rhs, .. } => {
            lemma_depth_is_only_a_bound(
                *rhs,
                env.insert(name.name, *rhs),
                (depth - 1) as nat,
                (more - 1) as nat,
            );
        },
        ExView::Cond { pred, thn, els, .. } => {
            let d = (depth - 1) as nat;
            let m = (more - 1) as nat;
            lemma_depth_is_only_a_bound(*pred, env, d, m);
            match eval(*pred, env, d) {
                Ok(ExView::ConstBool(b)) => {
                    if b {
                        lemma_depth_is_only_a_bound(*thn, env, d, m);
                    } else {
                        lemma_depth_is_only_a_bound(*els, env, d, m);
                    }
                },
                _ => {},
            }
        },
        ExView::Ap { ex: callee, args, .. } => {
            let d = (depth - 1) as nat;
            let m = (more - 1) as nat;
            lemma_depth_is_only_a_bound(*callee, env, d, m);
            match eval(*callee, env, d) {
                Ok(f) => {
                    lemma_depth_bounds_arguments(args, env, d, m);
                    match eval_args(args, env, d) {
                        Ok(values) => {
                            lemma_depth_bounds_application(f, values, env, d, m);
                        },
                        Err(_) => {},
                    }
                },
                Err(_) => {},
            }
        },
        _ => {},
    }
}

/// Arguments whose evaluation ends within `depth` nested steps have the
/// same outcome when more steps are allowed.
pub proof fn lemma_depth_bounds_arguments(
    args: Seq<ExView>,
    env: Map<Seq<char>, ExView>,
    depth: nat,
    more: nat,
)
    requires
        depth <= more,
        settled(eval_args(args, env, depth)),
    ensures
        eval_args(args, env, more) == eval_args(args, env, depth),
    decreases depth, args.len() + 1,
{
    if args.len() > 0 {
        lemma_depth_bounds_arguments(args.drop_last(), env, depth, more);
        if eval_args(args.drop_last(), env, depth) is Ok {
            lemma_depth_is_only_a_bound(args.last(), env, depth, more);
        }
    }
}

/// An application that ends within `depth` nested steps has the same
/// outcome when more steps are allowed.
pub proof fn lemma_depth_bounds_application(
    f: ExView,
    values: Seq<ExView>,
    env: Map<Seq<char>, ExView>,
    depth: nat,
    more: nat,
)
    requires
        depth <= more,
        settled(apply(f, values, env, depth)),
    ensures
        apply(f, values, env, more) == apply(f, values, env, depth),
    decreases depth, 1nat,
{
    match f {
        ExView::Lam { bound, body, .. } => {
            if bound.len() == values.len() {
                lemma_depth_is_only_a_bound(
                    *body,
                    bind_all(env, param_names(bound), values),
                    depth,
                    more,
                );
            }
        },
        _ => {},
    }
}

} // verus!
