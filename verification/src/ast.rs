//! The statement and expression trees produced by the parser, the decoded
//! type grammar, and the specification of expression node identities.
use vstd::prelude::*;

use crate::token::LiteralKind;
use crate::token::Token;

verus! {

/// A decoded literal value carried by a value expression.
#[derive(PartialEq, Eq, Debug)]
pub enum LiteralType {
    Number(i64),
    Str(String),
    Char(char),
    Boolean(bool),
    Null,
    Any,
}

/// Which compound assignment operator an assignment uses.
#[derive(Clone, Copy, PartialEq, Eq, Structural, Debug)]
pub enum AssignKind {
    Normal,
    Plus,
    Minus,
    Mult,
    Div,
}

/// Parse-time provenance of a call expression: four call forms share one
/// shape, so later passes reinterpret calls through name resolution.
#[derive(Clone, Copy, PartialEq, Eq, Structural, Debug)]
pub enum CallType {
    Array,
    Struct,
    Enum,
    Func,
}

/// The decoded semantic shape of a type annotation.
#[derive(PartialEq, Eq, Debug)]
pub enum TypeKind {
    /// A named user or builtin type.
    Var { name: Token },
    /// A type pinned to the shape of one literal.
    Value { kind: LiteralKind },
    /// An array type with an element type and an optional list of static
    /// dimension types.
    Array { kind: Box<TypeKind>, statics: Option<Vec<TypeKind>> },
    /// A function type with ordered parameter types and one return type.
    Func { params: Vec<TypeKind>, ret: Box<TypeKind> },
}

/// A lexical token joined with the type annotation decoded at its position.
/// The kind is absent when the token did not open a type and was returned
/// verbatim, deferring the error to the next consumer.
#[derive(PartialEq, Eq, Debug)]
pub struct TypedToken {
    pub token: Token,
    pub kind: Option<TypeKind>,
}

/// The body of a function declaration, function literal, or match arm.
#[derive(PartialEq, Eq, Debug)]
pub enum FuncBody {
    Statements(Vec<Statement>),
    Expression(Box<Expression>),
}

/// An expression node. Every variant carries a run-unique identity stamped at
/// construction time.
#[derive(PartialEq, Eq, Debug)]
pub enum Expression {
    Value { id: usize, value: LiteralType },
    Var { id: usize, name: Token },
    Assign { id: usize, name: Token, value: Box<Expression>, kind: AssignKind },
    Binary { id: usize, left: Box<Expression>, operator: Token, right: Box<Expression> },
    Unary { id: usize, left: Box<Expression>, operator: Token },
    Call { id: usize, name: Box<Expression>, args: Vec<Expression>, call_type: CallType },
    Method { id: usize, name: Token, left: Box<Expression>, args: Vec<Expression> },
    Func {
        id: usize,
        name: Token,
        value_type: Token,
        body: FuncBody,
        params: Vec<(Token, TypedToken)>,
        is_async: bool,
        is_pub: bool,
    },
    Array { id: usize, items: Vec<Expression> },
    Grouping { id: usize, expression: Box<Expression> },
    Await { id: usize, expr: Box<Expression> },
}

/// A statement node.
#[derive(PartialEq, Eq, Debug)]
pub enum Statement {
    Var {
        names: Vec<Token>,
        value_type: TypedToken,
        value: Option<Expression>,
        is_mut: bool,
        is_pub: bool,
        pub_names: Vec<Token>,
        is_func: bool,
    },
    Func {
        name: Token,
        value_type: TypedToken,
        body: FuncBody,
        params: Vec<(Token, TypedToken)>,
        is_async: bool,
        is_pub: bool,
    },
    If {
        cond: Expression,
        body: Vec<Statement>,
        else_if_branches: Vec<(Expression, Vec<Statement>)>,
        else_branch: Option<Vec<Statement>>,
    },
    Return { expr: Expression },
    While { cond: Expression, body: Vec<Statement> },
    Loop { iter: Option<usize>, body: Vec<Statement> },
    Break,
    Match { cond: Expression, cases: Vec<(Expression, FuncBody)>, def_case: FuncBody },
    Mod { src: String },
    Use { src: String, names: Vec<(Token, Option<Token>)>, all: bool },
    Enum { name: Token, enums: Vec<Token>, is_pub: bool },
    Block { stmts: Vec<Statement> },
    Expression { expr: Expression },
}

/// The identities of every expression node in `e`, listed in construction
/// order: operands before the node that wraps them.
pub open spec fn eids(e: Expression) -> Seq<int>
    decreases e,
{
    match e {
        Expression::Value { id, .. } => seq![id as int],
        Expression::Var { id, .. } => seq![id as int],
        Expression::Assign { id, value, .. } => eids(*value).push(id as int),
        Expression::Binary { id, left, right, .. } => (eids(*left) + eids(*right)).push(id as int),
        Expression::Unary { id, left, .. } => eids(*left).push(id as int),
        Expression::Call { id, name, args, .. } => (eids(*name) + eids_seq(args@)).push(id as int),
        Expression::Method { id, left, args, .. } => (eids(*left) + eids_seq(args@)).push(
            id as int,
        ),
        Expression::Func { id, body, .. } => fbids(body).push(id as int),
        Expression::Array { id, items } => eids_seq(items@).push(id as int),
        Expression::Grouping { id, expression } => eids(*expression).push(id as int),
        Expression::Await { id, expr } => eids(*expr).push(id as int),
    }
}

/// The identities of every expression node under a sequence of expressions.
pub open spec fn eids_seq(es: Seq<Expression>) -> Seq<int>
    decreases es,
{
    if es.len() == 0 {
        Seq::empty()
    } else {
        eids(es[0]) + eids_seq(es.drop_first())
    }
}

/// The identities of every expression node under a function body.
pub open spec fn fbids(b: FuncBody) -> Seq<int>
    decreases b,
{
    match b {
        FuncBody::Statements(v) => sids_seq(v@),
        FuncBody::Expression(e) => eids(*e),
    }
}

/// The identities of every expression node under a statement.
pub open spec fn sids(s: Statement) -> Seq<int>
    decreases s,
{
    match s {
        Statement::Var { value, .. } => match value {
            Option::Some(e) => eids(e),
            Option::None => Seq::empty(),
        },
        Statement::Func { body, .. } => fbids(body),
        Statement::If { cond, body, else_if_branches, else_branch } => eids(cond) + sids_seq(body@)
            + branch_ids(else_if_branches@) + match else_branch {
            Option::Some(v) => sids_seq(v@),
            Option::None => Seq::empty(),
        },
        Statement::Return { expr } => eids(expr),
        Statement::While { cond, body } => eids(cond) + sids_seq(body@),
        Statement::Loop { body, .. } => sids_seq(body@),
        Statement::Break => Seq::empty(),
        Statement::Match { cond, cases, def_case } => eids(cond) + case_ids(cases@) + fbids(
            def_case,
        ),
        Statement::Mod { .. } => Seq::empty(),
        Statement::Use { .. } => Seq::empty(),
        Statement::Enum { .. } => Seq::empty(),
        Statement::Block { stmts } => sids_seq(stmts@),
        Statement::Expression { expr } => eids(expr),
    }
}

/// The identities of every expression node under a sequence of statements.
pub open spec fn sids_seq(ss: Seq<Statement>) -> Seq<int>
    decreases ss,
{
    if ss.len() == 0 {
        Seq::empty()
    } else {
        sids(ss[0]) + sids_seq(ss.drop_first())
    }
}

/// The identities of every expression node under a list of condition-block
/// branches.
pub open spec fn branch_ids(bs: Seq<(Expression, Vec<Statement>)>) -> Seq<int>
    decreases bs,
{
    if bs.len() == 0 {
        Seq::empty()
    } else {
        eids(bs[0].0) + sids_seq(bs[0].1@) + branch_ids(bs.drop_first())
    }
}

/// The identities of every expression node under a list of match cases.
pub open spec fn case_ids(cs: Seq<(Expression, FuncBody)>) -> Seq<int>
    decreases cs,
{
    if cs.len() == 0 {
        Seq::empty()
    } else {
        eids(cs[0].0) + fbids(cs[0].1) + case_ids(cs.drop_first())
    }
}

/// The number of expression nodes in `e`, itself included.
pub open spec fn expr_count(e: Expression) -> nat
    decreases e,
{
    match e {
        Expression::Value { .. } => 1,
        Expression::Var { .. } => 1,
        Expression::Assign { value, .. } => expr_count(*value) + 1,
        Expression::Binary { left, right, .. } => expr_count(*left) + expr_count(*right) + 1,
        Expression::Unary { left, .. } => expr_count(*left) + 1,
        Expression::Call { name, args, .. } => expr_count(*name) + expr_seq_count(args@) + 1,
        Expression::Method { left, args, .. } => expr_count(*left) + expr_seq_count(args@) + 1,
        Expression::Func { body, .. } => fb_count(body) + 1,
        Expression::Array { items, .. } => expr_seq_count(items@) + 1,
        Expression::Grouping { expression, .. } => expr_count(*expression) + 1,
        Expression::Await { expr, .. } => expr_count(*expr) + 1,
    }
}

/// The number of expression nodes under a sequence of expressions.
pub open spec fn expr_seq_count(es: Seq<Expression>) -> nat
    decreases es,
{
    if es.len() == 0 {
        0
    } else {
        expr_count(es[0]) + expr_seq_count(es.drop_first())
    }
}

/// The number of expression nodes under a function body.
pub open spec fn fb_count(b: FuncBody) -> nat
    decreases b,
{
    match b {
        FuncBody::Statements(v) => stmt_seq_count(v@),
        FuncBody::Expression(e) => expr_count(*e),
    }
}

/// The number of expression nodes under a statement.
pub open spec fn stmt_count(s: Statement) -> nat
    decreases s,
{
    match s {
        Statement::Var { value, .. } => match value {
            Option::Some(e) => expr_count(e),
            Option::None => 0,
        },
        Statement::Func { body, .. } => fb_count(body),
        Statement::If { cond, body, else_if_branches, else_branch } => expr_count(cond)
            + stmt_seq_count(body@) + branch_count(else_if_branches@) + match else_branch {
            Option::Some(v) => stmt_seq_count(v@),
            Option::None => 0,
        },
        Statement::Return { expr } => expr_count(expr),
        Statement::While { cond, body } => expr_count(cond) + stmt_seq_count(body@),
        Statement::Loop { body, .. } => stmt_seq_count(body@),
        Statement::Break => 0,
        Statement::Match { cond, cases, def_case } => expr_count(cond) + case_count(cases@)
            + fb_count(def_case),
        Statement::Mod { .. } => 0,
        Statement::Use { .. } => 0,
        Statement::Enum { .. } => 0,
        Statement::Block { stmts } => stmt_seq_count(stmts@),
        Statement::Expression { expr } => expr_count(expr),
    }
}

/// The number of expression nodes under a sequence of statements.
pub open spec fn stmt_seq_count(ss: Seq<Statement>) -> nat
    decreases ss,
{
    if ss.len() == 0 {
        0
    } else {
        stmt_count(ss[0]) + stmt_seq_count(ss.drop_first())
    }
}

/// The number of expression nodes under a list of condition-block branches.
pub open spec fn branch_count(bs: Seq<(Expression, Vec<Statement>)>) -> nat
    decreases bs,
{
    if bs.len() == 0 {
        0
    } else {
        expr_count(bs[0].0) + stmt_seq_count(bs[0].1@) + branch_count(bs.drop_first())
    }
}

/// The number of expression nodes under a list of match cases.
pub open spec fn case_count(cs: Seq<(Expression, FuncBody)>) -> nat
    decreases cs,
{
    if cs.len() == 0 {
        0
    } else {
        expr_count(cs[0].0) + fb_count(cs[0].1) + case_count(cs.drop_first())
    }
}

/// Every expression node contributes exactly one identity: the length of a
/// tree's identity sequence equals its number of expression nodes.
pub proof fn lemma_eids_len(e: Expression)
    ensures
        eids(e).len() == expr_count(e),
    decreases e,
{
    match e {
        Expression::Value { .. } => {},
        Expression::Var { .. } => {},
        Expression::Assign { value, .. } => {
            lemma_eids_len(*value);
        },
        Expression::Binary { left, right, .. } => {
            lemma_eids_len(*left);
            lemma_eids_len(*right);
        },
        Expression::Unary { left, .. } => {
            lemma_eids_len(*left);
        },
        Expression::Call { name, args, .. } => {
            lemma_eids_len(*name);
            lemma_eids_seq_len(args@);
        },
        Expression::Method { left, args, .. } => {
            lemma_eids_len(*left);
            lemma_eids_seq_len(args@);
        },
        Expression::Func { body, .. } => {
            lemma_fbids_len(body);
        },
        Expression::Array { items, .. } => {
            lemma_eids_seq_len(items@);
        },
        Expression::Grouping { expression, .. } => {
            lemma_eids_len(*expression);
        },
        Expression::Await { expr, .. } => {
            lemma_eids_len(*expr);
        },
    }
}

/// The identity count of an expression sequence equals its node count.
pub proof fn lemma_eids_seq_len(es: Seq<Expression>)
    ensures
        eids_seq(es).len() == expr_seq_count(es),
    decreases es,
{
    if es.len() != 0 {
        lemma_eids_len(es[0]);
        lemma_eids_seq_len(es.drop_first());
    }
}

/// The identity count of a function body equals its node count.
pub proof fn lemma_fbids_len(b: FuncBody)
    ensures
        fbids(b).len() == fb_count(b),
    decreases b,
{
    match b {
        FuncBody::Statements(v) => {
            lemma_sids_seq_len(v@);
        },
        FuncBody::Expression(e) => {
            lemma_eids_len(*e);
        },
    }
}

/// The identity count of a statement equals its node count.
pub proof fn lemma_sids_len(s: Statement)
    ensures
        sids(s).len() == stmt_count(s),
    decreases s,
{
    match s {
        Statement::Var { value, .. } => {
            match value {
                Option::Some(e) => lemma_eids_len(e),
                Option::None => {},
            }
        },
        Statement::Func { body, .. } => {
            lemma_fbids_len(body);
        },
        Statement::If { cond, body, else_if_branches, else_branch } => {
            lemma_eids_len(cond);
            lemma_sids_seq_len(body@);
            lemma_branch_ids_len(else_if_branches@);
            match else_branch {
                Option::Some(v) => lemma_sids_seq_len(v@),
                Option::None => {},
            }
        },
        Statement::Return { expr } => {
            lemma_eids_len(expr);
        },
        Statement::While { cond, body } => {
            lemma_eids_len(cond);
            lemma_sids_seq_len(body@);
        },
        Statement::Loop { body, .. } => {
            lemma_sids_seq_len(body@);
        },
        Statement::Break => {},
        Statement::Match { cond, cases, def_case } => {
            lemma_eids_len(cond);
            lemma_case_ids_len(cases@);
            lemma_fbids_len(def_case);
        },
        Statement::Mod { .. } => {},
        Statement::Use { .. } => {},
        Statement::Enum { .. } => {},
        Statement::Block { stmts } => {
            lemma_sids_seq_len(stmts@);
        },
        Statement::Expression { expr } => {
            lemma_eids_len(expr);
        },
    }
}

/// The identity count of a statement sequence equals its node count.
pub proof fn lemma_sids_seq_len(ss: Seq<Statement>)
    ensures
        sids_seq(ss).len() == stmt_seq_count(ss),
    decreases ss,
{
    if ss.len() != 0 {
        lemma_sids_len(ss[0]);
        lemma_sids_seq_len(ss.drop_first());
    }
}

/// The identity count of a branch list equals its node count.
pub proof fn lemma_branch_ids_len(bs: Seq<(Expression, Vec<Statement>)>)
    ensures
        branch_ids(bs).len() == branch_count(bs),
    decreases bs,
{
    if bs.len() != 0 {
        lemma_eids_len(bs[0].0);
        lemma_sids_seq_len(bs[0].1@);
        lemma_branch_ids_len(bs.drop_first());
    }
}

/// The identity count of a case list equals its node count.
pub proof fn lemma_case_ids_len(cs: Seq<(Expression, FuncBody)>)
    ensures
        case_ids(cs).len() == case_count(cs),
    decreases cs,
{
    if cs.len() != 0 {
        lemma_eids_len(cs[0].0);
        lemma_fbids_len(cs[0].1);
        lemma_case_ids_len(cs.drop_first());
    }
}

/// Holds when `s` lists identities that are strictly increasing and all lie
/// in the half-open interval `[lo, hi)`.
pub open spec fn ids_inc(s: Seq<int>, lo: int, hi: int) -> bool {
    (forall|k: int| 0 <= k < s.len() ==> lo <= #[trigger] s[k] < hi) && (forall|i: int, j: int|
        #![trigger s[i], s[j]]
        0 <= i < j < s.len() ==> s[i] < s[j])
}

/// Identities that are strictly increasing are pairwise distinct, so in any
/// tree whose identity sequence satisfies `ids_inc` the number of distinct
/// identities equals the number of expression nodes.
pub proof fn lemma_ids_inc_distinct(s: Seq<int>, lo: int, hi: int)
    requires
        ids_inc(s, lo, hi),
    ensures
        forall|i: int, j: int| #![trigger s[i], s[j]] 0 <= i < s.len() && 0 <= j < s.len() && i != j
            ==> s[i] != s[j],
{
}

/// The identity sequence of a tree built by a fresh parser, whose counter
/// starts at zero, is zero-based and strictly increasing: every identity lies
/// below the final counter value and identities grow in construction order.
pub proof fn lemma_fresh_ids_zero_based(s: Seq<int>, hi: int)
    requires
        ids_inc(s, 0, hi),
    ensures
        forall|k: int| 0 <= k < s.len() ==> 0 <= #[trigger] s[k] < hi,
        forall|i: int, j: int| #![trigger s[i], s[j]] 0 <= i < j < s.len() ==> s[i] < s[j],
{
}

/// An increasing identity interval may be widened on both sides.
pub proof fn lemma_ids_inc_widen(s: Seq<int>, lo: int, hi: int, lo2: int, hi2: int)
    requires
        ids_inc(s, lo, hi),
        lo2 <= lo,
        hi <= hi2,
    ensures
        ids_inc(s, lo2, hi2),
{
}

/// Concatenating increasing identity sequences over adjacent intervals yields
/// an increasing sequence over the joined interval.
pub proof fn lemma_ids_inc_concat(a: Seq<int>, b: Seq<int>, lo: int, mid: int, hi: int)
    requires
        ids_inc(a, lo, mid),
        ids_inc(b, mid, hi),
        lo <= mid <= hi,
    ensures
        ids_inc(a + b, lo, hi),
{
    assert forall|k: int| 0 <= k < (a + b).len() implies lo <= #[trigger] (a + b)[k] < hi by {
        if k < a.len() {
            assert((a + b)[k] == a[k]);
        } else {
            assert((a + b)[k] == b[k - a.len()]);
        }
    }
    assert forall|i: int, j: int| #![trigger (a + b)[i], (a + b)[j]] 0 <= i < j < (a + b).len()
        implies (a + b)[i] < (a + b)[j] by {
        if j < a.len() {
            assert((a + b)[i] == a[i] && (a + b)[j] == a[j]);
        } else if i >= a.len() {
            assert((a + b)[i] == b[i - a.len()] && (a + b)[j] == b[j - a.len()]);
        } else {
            assert((a + b)[i] == a[i] && (a + b)[j] == b[j - a.len()]);
        }
    }
}

/// Appending the next fresh identity keeps the sequence increasing.
pub proof fn lemma_ids_inc_push(a: Seq<int>, lo: int, x: int)
    requires
        ids_inc(a, lo, x),
        lo <= x,
    ensures
        ids_inc(a.push(x), lo, x + 1),
{
    assert forall|k: int| 0 <= k < a.push(x).len() implies lo <= #[trigger] a.push(x)[k] < x
        + 1 by {
        if k < a.len() {
            assert(a.push(x)[k] == a[k]);
        } else {
            assert(a.push(x)[k] == x);
        }
    }
    assert forall|i: int, j: int| #![trigger a.push(x)[i], a.push(x)[j]] 0 <= i < j < a.push(
        x,
    ).len() implies a.push(x)[i] < a.push(x)[j] by {
        if j < a.len() {
            assert(a.push(x)[i] == a[i] && a.push(x)[j] == a[j]);
        } else {
            assert(a.push(x)[j] == x);
            assert(a.push(x)[i] == a[i]);
        }
    }
}

/// A one-element identity sequence is increasing in any interval holding it.
pub proof fn lemma_ids_inc_singleton(x: int, lo: int, hi: int)
    requires
        lo <= x < hi,
    ensures
        ids_inc(seq![x], lo, hi),
{
    assert(seq![x].len() == 1);
    assert(seq![x][0] == x);
}

/// Appending one expression extends the identity sequence on the right.
pub proof fn lemma_eids_seq_push(s: Seq<Expression>, e: Expression)
    ensures
        eids_seq(s.push(e)) == eids_seq(s) + eids(e),
    decreases s.len(),
{
    if s.len() == 0 {
        assert(s.push(e)[0] == e);
        assert(s.push(e).drop_first() =~= Seq::<Expression>::empty());
        assert(eids_seq(s.push(e)) == eids(e) + eids_seq(Seq::<Expression>::empty()));
        assert(eids(e) + Seq::<int>::empty() =~= eids_seq(s) + eids(e));
    } else {
        lemma_eids_seq_push(s.drop_first(), e);
        assert(s.push(e)[0] == s[0]);
        assert(s.push(e).drop_first() =~= s.drop_first().push(e));
        assert(eids_seq(s.push(e)) == eids(s[0]) + eids_seq(s.drop_first().push(e)));
        assert(eids_seq(s.drop_first().push(e)) == eids_seq(s.drop_first()) + eids(e));
        assert(eids_seq(s) == eids(s[0]) + eids_seq(s.drop_first()));
        assert(eids(s[0]) + (eids_seq(s.drop_first()) + eids(e)) =~= (eids(s[0]) + eids_seq(
            s.drop_first(),
        )) + eids(e));
    }
}

/// Appending one statement extends the identity sequence on the right.
pub proof fn lemma_sids_seq_push(s: Seq<Statement>, x: Statement)
    ensures
        sids_seq(s.push(x)) == sids_seq(s) + sids(x),
    decreases s.len(),
{
    if s.len() == 0 {
        assert(s.push(x)[0] == x);
        assert(s.push(x).drop_first() =~= Seq::<Statement>::empty());
        assert(sids_seq(s.push(x)) == sids(x) + sids_seq(Seq::<Statement>::empty()));
        assert(sids(x) + Seq::<int>::empty() =~= sids_seq(s) + sids(x));
    } else {
        lemma_sids_seq_push(s.drop_first(), x);
        assert(s.push(x)[0] == s[0]);
        assert(s.push(x).drop_first() =~= s.drop_first().push(x));
        assert(sids_seq(s.push(x)) == sids(s[0]) + sids_seq(s.drop_first().push(x)));
        assert(sids_seq(s.drop_first().push(x)) == sids_seq(s.drop_first()) + sids(x));
        assert(sids_seq(s) == sids(s[0]) + sids_seq(s.drop_first()));
        assert(sids(s[0]) + (sids_seq(s.drop_first()) + sids(x)) =~= (sids(s[0]) + sids_seq(
            s.drop_first(),
        )) + sids(x));
    }
}

/// Appending one condition-block branch extends the identity sequence on the
/// right.
pub proof fn lemma_branch_ids_push(s: Seq<(Expression, Vec<Statement>)>, x: (Expression, Vec<Statement>))
    ensures
        branch_ids(s.push(x)) == branch_ids(s) + eids(x.0) + sids_seq(x.1@),
    decreases s.len(),
{
    if s.len() == 0 {
        assert(s.push(x)[0] == x);
        assert(s.push(x).drop_first() =~= Seq::<(Expression, Vec<Statement>)>::empty());
        assert(branch_ids(s.push(x)) == eids(x.0) + sids_seq(x.1@) + branch_ids(
            Seq::<(Expression, Vec<Statement>)>::empty(),
        ));
        assert(eids(x.0) + sids_seq(x.1@) + Seq::<int>::empty() =~= branch_ids(s) + eids(x.0)
            + sids_seq(x.1@));
    } else {
        lemma_branch_ids_push(s.drop_first(), x);
        assert(s.push(x)[0] == s[0]);
        assert(s.push(x).drop_first() =~= s.drop_first().push(x));
        assert(branch_ids(s.push(x)) == eids(s[0].0) + sids_seq(s[0].1@) + branch_ids(
            s.drop_first().push(x),
        ));
        assert(branch_ids(s.drop_first().push(x)) == branch_ids(s.drop_first()) + eids(x.0)
            + sids_seq(x.1@));
        assert(branch_ids(s) == eids(s[0].0) + sids_seq(s[0].1@) + branch_ids(s.drop_first()));
        assert(eids(s[0].0) + sids_seq(s[0].1@) + (branch_ids(s.drop_first()) + eids(x.0)
            + sids_seq(x.1@)) =~= (eids(s[0].0) + sids_seq(s[0].1@) + branch_ids(s.drop_first()))
            + eids(x.0) + sids_seq(x.1@));
    }
}

/// Appending one match case extends the identity sequence on the right.
pub proof fn lemma_case_ids_push(s: Seq<(Expression, FuncBody)>, x: (Expression, FuncBody))
    ensures
        case_ids(s.push(x)) == case_ids(s) + eids(x.0) + fbids(x.1),
    decreases s.len(),
{
    if s.len() == 0 {
        assert(s.push(x)[0] == x);
        assert(s.push(x).drop_first() =~= Seq::<(Expression, FuncBody)>::empty());
        assert(case_ids(s.push(x)) == eids(x.0) + fbids(x.1) + case_ids(
            Seq::<(Expression, FuncBody)>::empty(),
        ));
        assert(eids(x.0) + fbids(x.1) + Seq::<int>::empty() =~= case_ids(s) + eids(x.0) + fbids(
            x.1,
        ));
    } else {
        lemma_case_ids_push(s.drop_first(), x);
        assert(s.push(x)[0] == s[0]);
        assert(s.push(x).drop_first() =~= s.drop_first().push(x));
        assert(case_ids(s.push(x)) == eids(s[0].0) + fbids(s[0].1) + case_ids(
            s.drop_first().push(x),
        ));
        assert(case_ids(s.drop_first().push(x)) == case_ids(s.drop_first()) + eids(x.0) + fbids(
            x.1,
        ));
        assert(case_ids(s) == eids(s[0].0) + fbids(s[0].1) + case_ids(s.drop_first()));
        assert(eids(s[0].0) + fbids(s[0].1) + (case_ids(s.drop_first()) + eids(x.0) + fbids(x.1))
            =~= (eids(s[0].0) + fbids(s[0].1) + case_ids(s.drop_first())) + eids(x.0) + fbids(
            x.1,
        ));
    }
}

} // verus!
