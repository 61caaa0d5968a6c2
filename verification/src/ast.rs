//! The abstract syntax tree: modules, declarations, statements and
//! expressions, together with their mathematical views and the structural
//! invariants the parser guarantees.

use vstd::prelude::*;

verus! {

/// A binary operator.  All four bind equally and associate to the left.
#[derive(Clone, Copy, Debug, PartialEq, Eq, Structural)]
pub enum Op {
    Plus,
    Minus,
    BitAnd,
    BitOr,
}

/// The direction of a port declaration.
#[derive(Clone, Copy, Debug, PartialEq, Eq, Structural)]
pub enum PortDirection {
    Input,
    Output,
}

/// An expression: an identifier, a raw literal kept verbatim, or a binary
/// operation over two sub-expressions.
#[derive(Debug)]
pub enum Expr {
    Identifier(String),
    Literal(String),
    BinaryOp(Box<Expr>, Op, Box<Expr>),
}

/// A statement inside a combinatorial block.
#[derive(Debug)]
pub enum Statement {
    /// `target = expr;`
    Assignment { target: String, expr: Expr },
    /// `switch (switch_expr) { case label: body ... default: body }`.
    /// Cases keep their source order; each body is a single statement, so
    /// switches nest by recursion.
    Switch {
        switch_expr: Expr,
        cases: Vec<(Expr, Statement)>,
        default: Option<Box<Statement>>,
    },
}

/// A declaration inside a module body.
#[derive(Debug)]
pub enum Declaration {
    /// `port input|output reg? name [width];` — width defaults to 1 when the
    /// bracket clause is omitted.
    Port { direction: PortDirection, is_reg: bool, name: String, width: u32 },
    /// `combinatorial { statements }`
    Combinatorial(Vec<Statement>),
    /// A generate-time conditional; its body is itself a declaration list,
    /// so conditional blocks nest by recursion.
    ConditionalBlock { condition: String, declarations: Vec<Declaration> },
}

/// The root of the tree: one module per compilation unit.
#[derive(Debug)]
pub struct Module {
    pub name: String,
    pub declarations: Vec<Declaration>,
}

/// The mathematical value of an [`Expr`].
pub enum ExprV {
    Identifier(Seq<char>),
    Literal(Seq<char>),
    BinaryOp(Box<ExprV>, Op, Box<ExprV>),
}

/// The mathematical value of a [`Statement`].
pub enum StmtV {
    Assignment { target: Seq<char>, expr: ExprV },
    Switch { switch_expr: ExprV, cases: Seq<(ExprV, StmtV)>, default: Option<Box<StmtV>> },
}

/// The mathematical value of a [`Declaration`].
pub enum DeclV {
    Port { direction: PortDirection, is_reg: bool, name: Seq<char>, width: u32 },
    Combinatorial(Seq<StmtV>),
    ConditionalBlock { condition: Seq<char>, declarations: Seq<DeclV> },
}

/// The mathematical value of a [`Module`].
pub struct ModuleV {
    pub name: Seq<char>,
    pub declarations: Seq<DeclV>,
}

/// The view of an [`Expr`], defined by structural recursion.
pub open spec fn expr_view(e: Expr) -> ExprV
    decreases e,
{
    match e {
        Expr::Identifier(s) => ExprV::Identifier(s@),
        Expr::Literal(s) => ExprV::Literal(s@),
        Expr::BinaryOp(l, op, r) => ExprV::BinaryOp(
            Box::new(expr_view(*l)),
            op,
            Box::new(expr_view(*r)),
        ),
    }
}

/// The view of a [`Statement`], defined by structural recursion.
pub open spec fn stmt_view(s: Statement) -> StmtV
    decreases s,
{
    match s {
        Statement::Assignment { target, expr } => StmtV::Assignment {
            target: target@,
            expr: expr_view(expr),
        },
        Statement::Switch { switch_expr, cases, default } => StmtV::Switch {
            switch_expr: expr_view(switch_expr),
            cases: cases_view(cases@),
            default: match default {
                Some(b) => Some(Box::new(stmt_view(*b))),
                None => None,
            },
        },
    }
}

/// The element-wise view of a switch's case list.
pub open spec fn cases_view(cs: Seq<(Expr, Statement)>) -> Seq<(ExprV, StmtV)>
    decreases cs,
{
    if cs.len() == 0 {
        Seq::empty()
    } else {
        cases_view(cs.drop_last()).push((expr_view(cs.last().0), stmt_view(cs.last().1)))
    }
}

/// The element-wise view of a statement list.
pub open spec fn stmts_view(ss: Seq<Statement>) -> Seq<StmtV>
    decreases ss,
{
    if ss.len() == 0 {
        Seq::empty()
    } else {
        stmts_view(ss.drop_last()).push(stmt_view(ss.last()))
    }
}

/// The view of a [`Declaration`], defined by structural recursion.
pub open spec fn decl_view(d: Declaration) -> DeclV
    decreases d,
{
    match d {
        Declaration::Port { direction, is_reg, name, width } => DeclV::Port {
            direction,
            is_reg,
            name: name@,
            width,
        },
        Declaration::Combinatorial(stmts) => DeclV::Combinatorial(stmts_view(stmts@)),
        Declaration::ConditionalBlock { condition, declarations } => DeclV::ConditionalBlock {
            condition: condition@,
            declarations: decls_view(declarations@),
        },
    }
}

/// The element-wise view of a declaration list.
pub open spec fn decls_view(ds: Seq<Declaration>) -> Seq<DeclV>
    decreases ds,
{
    if ds.len() == 0 {
        Seq::empty()
    } else {
        decls_view(ds.drop_last()).push(decl_view(ds.last()))
    }
}

impl View for Expr {
    type V = ExprV;

    open spec fn view(&self) -> ExprV {
        expr_view(*self)
    }
}

impl View for Statement {
    type V = StmtV;

    open spec fn view(&self) -> StmtV {
        stmt_view(*self)
    }
}

impl View for Declaration {
    type V = DeclV;

    open spec fn view(&self) -> DeclV {
        decl_view(*self)
    }
}

impl View for Module {
    type V = ModuleV;

    open spec fn view(&self) -> ModuleV {
        ModuleV { name: self.name@, declarations: decls_view(self.declarations@) }
    }
}

/// The length and elements of a viewed statement list.
pub proof fn lemma_stmts_view_index(ss: Seq<Statement>)
    ensures
        stmts_view(ss).len() == ss.len(),
        forall|i: int| 0 <= i < ss.len() ==> stmts_view(ss)[i] == stmt_view(ss[i]),
    decreases ss,
{
    if ss.len() > 0 {
        lemma_stmts_view_index(ss.drop_last());
    }
}

/// The length and elements of a viewed case list.
pub proof fn lemma_cases_view_index(cs: Seq<(Expr, Statement)>)
    ensures
        cases_view(cs).len() == cs.len(),
        forall|i: int|
            0 <= i < cs.len() ==> cases_view(cs)[i] == (
                expr_view(cs[i].0),
                stmt_view(cs[i].1),
            ),
    decreases cs,
{
    if cs.len() > 0 {
        lemma_cases_view_index(cs.drop_last());
    }
}

/// The length and elements of a viewed declaration list.
pub proof fn lemma_decls_view_index(ds: Seq<Declaration>)
    ensures
        decls_view(ds).len() == ds.len(),
        forall|i: int| 0 <= i < ds.len() ==> decls_view(ds)[i] == decl_view(ds[i]),
    decreases ds,
{
    if ds.len() > 0 {
        lemma_decls_view_index(ds.drop_last());
    }
}

/// Viewing a statement list with an element at its front.
pub proof fn lemma_stmts_view_prepend(x: Statement, r: Seq<Statement>)
    ensures
        stmts_view(seq![x].add(r)) == seq![stmt_view(x)].add(stmts_view(r)),
{
    lemma_stmts_view_index(seq![x].add(r));
    lemma_stmts_view_index(r);
    assert(stmts_view(seq![x].add(r)) =~= seq![stmt_view(x)].add(stmts_view(r)));
}

/// Viewing a case list with an element at its front.
pub proof fn lemma_cases_view_prepend(x: (Expr, Statement), r: Seq<(Expr, Statement)>)
    ensures
        cases_view(seq![x].add(r)) == seq![(expr_view(x.0), stmt_view(x.1))].add(cases_view(r)),
{
    lemma_cases_view_index(seq![x].add(r));
    lemma_cases_view_index(r);
    assert(cases_view(seq![x].add(r)) =~= seq![(expr_view(x.0), stmt_view(x.1))].add(
        cases_view(r),
    ));
}

/// Viewing a declaration list with an element at its front.
pub proof fn lemma_decls_view_prepend(x: Declaration, r: Seq<Declaration>)
    ensures
        decls_view(seq![x].add(r)) == seq![decl_view(x)].add(decls_view(r)),
{
    lemma_decls_view_index(seq![x].add(r));
    lemma_decls_view_index(r);
    assert(decls_view(seq![x].add(r)) =~= seq![decl_view(x)].add(decls_view(r)));
}

/// Structural well-formedness of a statement: a switch is never empty —
/// it has at least one case or a default arm — and its case bodies and
/// default arm are themselves well-formed.
pub open spec fn stmt_wf(s: StmtV) -> bool
    decreases s,
{
    match s {
        StmtV::Assignment { target, expr } => true,
        StmtV::Switch { switch_expr, cases, default } => {
            &&& cases.len() > 0 || default is Some
            &&& forall|i: int| 0 <= i < cases.len() ==> stmt_wf(#[trigger] cases[i].1)
            &&& match default {
                Some(d) => stmt_wf(*d),
                None => true,
            }
        },
    }
}

/// Structural well-formedness of a declaration: port widths are at least 1
/// and a conditional block's condition is a non-empty identifier.
pub open spec fn decl_wf(d: DeclV) -> bool
    decreases d,
{
    match d {
        DeclV::Port { direction, is_reg, name, width } => width >= 1,
        DeclV::Combinatorial(stmts) => forall|i: int|
            0 <= i < stmts.len() ==> stmt_wf(#[trigger] stmts[i]),
        DeclV::ConditionalBlock { condition, declarations } => {
            &&& condition.len() > 0
            &&& forall|i: int| 0 <= i < declarations.len() ==> decl_wf(#[trigger] declarations[i])
        },
    }
}

/// Structural well-formedness of a whole module: every invariant of the
/// data model holds throughout the tree.
pub open spec fn module_wf(m: ModuleV) -> bool {
    forall|i: int| 0 <= i < m.declarations.len() ==> decl_wf(#[trigger] m.declarations[i])
}

} // verus!
