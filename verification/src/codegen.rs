//! Code generation: from a well-formed AST to Verilog text.
//!
//! The generator walks the declaration/statement tree depth first,
//! threading two explicit parameters: the current indentation (as the pad
//! string each emitted line starts with) and the scope, the list of names
//! already declared at the enclosing level.  The scope decides declaration
//! emission: an assignment target that is not in scope gets an implicit
//! `wire` declaration in front of its block, once, in order of first
//! occurrence; each block's scope is built fresh and discarded on exit, so
//! inner declarations never leak outward.
//!
//! Generation is a pure function of the tree: the executable
//! [`CodeGenerator::generate`] is proved to emit exactly the text of the
//! spec-level renderer [`render_module`], so identical trees always yield
//! byte-identical output.  It assumes its input already satisfies the data
//! model's invariants ([`module_wf`]); the parser establishes them.

use vstd::prelude::*;

use crate::ast::{decl_view, decls_view, expr_view, stmt_view, stmts_view};
use crate::ast::{decl_wf, module_wf};
use crate::ast::{DeclV, Declaration, Expr, ExprV, Module, ModuleV, Op, PortDirection, Statement,
    StmtV};

verus! {

// ---------------------------------------------------------------------------
// Names and scopes
// ---------------------------------------------------------------------------
/// The mathematical value of a list of names.
pub open spec fn names_view(ss: Seq<String>) -> Seq<Seq<char>> {
    ss.map(|i: int, s: String| s@)
}

/// Whether a scope contains a name.
pub open spec fn contains_name(scope: Seq<Seq<char>>, n: Seq<char>) -> bool {
    exists|j: int| 0 <= j < scope.len() && scope[j] == n
}

/// The names of the ports declared in a declaration list, from index `i`
/// on, in order.
pub open spec fn port_names_from(ds: Seq<DeclV>, i: int) -> Seq<Seq<char>>
    decreases ds.len() - i,
    when 0 <= i <= ds.len()
{
    if i < ds.len() {
        match ds[i] {
            DeclV::Port { direction, is_reg, name, width } => seq![name].add(
                port_names_from(ds, i + 1),
            ),
            _ => port_names_from(ds, i + 1),
        }
    } else {
        Seq::empty()
    }
}

// ---------------------------------------------------------------------------
// Assignment targets and implicit wires
// ---------------------------------------------------------------------------
/// The assignment targets of a statement, in depth-first source order.
pub open spec fn stmt_targets(s: StmtV) -> Seq<Seq<char>>
    decreases s, 0int,
{
    match s {
        StmtV::Assignment { target, expr } => seq![target],
        StmtV::Switch { switch_expr, cases, default } => cases_targets_from(cases, 0).add(
            match default {
                Some(d) => stmt_targets(*d),
                None => Seq::empty(),
            },
        ),
    }
}

/// The assignment targets of the case bodies of a switch, from index `i` on.
pub open spec fn cases_targets_from(cs: Seq<(ExprV, StmtV)>, i: int) -> Seq<Seq<char>>
    decreases cs, cs.len() - i,
    when 0 <= i <= cs.len()
{
    if i < cs.len() {
        stmt_targets(cs[i].1).add(cases_targets_from(cs, i + 1))
    } else {
        Seq::empty()
    }
}

/// The assignment targets of a statement list, from index `i` on.
pub open spec fn stmts_targets_from(ss: Seq<StmtV>, i: int) -> Seq<Seq<char>>
    decreases ss.len() - i,
    when 0 <= i <= ss.len()
{
    if i < ss.len() {
        stmt_targets(ss[i]).add(stmts_targets_from(ss, i + 1))
    } else {
        Seq::empty()
    }
}

/// The implicit wires of a block: the targets from index `i` on that are
/// neither in scope nor already emitted, each kept once, in order of first
/// occurrence.
pub open spec fn wires_from(
    targets: Seq<Seq<char>>,
    i: int,
    scope: Seq<Seq<char>>,
    emitted: Seq<Seq<char>>,
) -> Seq<Seq<char>>
    decreases targets.len() - i,
    when 0 <= i <= targets.len()
{
    if i < targets.len() {
        let t = targets[i];
        if contains_name(scope, t) || contains_name(emitted, t) {
            wires_from(targets, i + 1, scope, emitted)
        } else {
            seq![t].add(wires_from(targets, i + 1, scope, emitted.push(t)))
        }
    } else {
        Seq::empty()
    }
}

// ---------------------------------------------------------------------------
// Text building blocks
// ---------------------------------------------------------------------------
/// One more level of indentation: four spaces added to the pad.
pub open spec fn indent1(pad: Seq<char>) -> Seq<char> {
    pad.add("    "@)
}

/// The decimal digit character for `n`, `0 <= n <= 9`.
pub open spec fn digit_char(n: int) -> char {
    if n == 0 {
        '0'
    } else if n == 1 {
        '1'
    } else if n == 2 {
        '2'
    } else if n == 3 {
        '3'
    } else if n == 4 {
        '4'
    } else if n == 5 {
        '5'
    } else if n == 6 {
        '6'
    } else if n == 7 {
        '7'
    } else if n == 8 {
        '8'
    } else {
        '9'
    }
}

/// The decimal digits of `n`, most significant first.
pub open spec fn dec_digits(n: int) -> Seq<char>
    decreases n,
    when 0 <= n
{
    if n < 10 {
        seq![digit_char(n)]
    } else {
        dec_digits(n / 10).push(digit_char(n % 10))
    }
}

/// The text of a binary operator.
pub open spec fn op_text(op: Op) -> Seq<char> {
    match op {
        Op::Plus => "+"@,
        Op::Minus => "-"@,
        Op::BitAnd => "&"@,
        Op::BitOr => "|"@,
    }
}

/// The text of an expression: identifiers and literals verbatim, binary
/// operations with one space around the operator and no parentheses (with
/// a single precedence level none are needed).
pub open spec fn render_expr(e: ExprV) -> Seq<char>
    decreases e,
{
    match e {
        ExprV::Identifier(s) => s,
        ExprV::Literal(t) => t,
        ExprV::BinaryOp(l, op, r) => render_expr(*l).add(seq![' ']).add(op_text(op)).add(
            seq![' '],
        ).add(render_expr(*r)),
    }
}

// ---------------------------------------------------------------------------
// Statements
// ---------------------------------------------------------------------------
/// The text of one statement at the given pad.
pub open spec fn render_stmt(s: StmtV, pad: Seq<char>) -> Seq<char>
    decreases s, 0int,
{
    match s {
        StmtV::Assignment { target, expr } => pad.add(target).add(" = "@).add(
            render_expr(expr),
        ).add(";\n"@),
        StmtV::Switch { switch_expr, cases, default } => pad.add("case ("@).add(
            render_expr(switch_expr),
        ).add(")\n"@).add(render_cases_from(cases, 0, pad)).add(
            match default {
                Some(d) => indent1(pad).add("default:\n"@).add(
                    render_stmt(*d, indent1(indent1(pad))),
                ),
                None => Seq::empty(),
            },
        ).add(pad).add("endcase\n"@),
    }
}

/// The text of a switch's case clauses from index `i` on: each label on
/// its own line one level in, its body one level further.
pub open spec fn render_cases_from(cs: Seq<(ExprV, StmtV)>, i: int, pad: Seq<char>) -> Seq<char>
    decreases cs, cs.len() - i,
    when 0 <= i <= cs.len()
{
    if i < cs.len() {
        indent1(pad).add(render_expr(cs[i].0)).add(":\n"@).add(
            render_stmt(cs[i].1, indent1(indent1(pad))),
        ).add(render_cases_from(cs, i + 1, pad))
    } else {
        Seq::empty()
    }
}

/// The text of a statement list from index `i` on.
pub open spec fn render_stmts_from(ss: Seq<StmtV>, i: int, pad: Seq<char>) -> Seq<char>
    decreases ss.len() - i,
    when 0 <= i <= ss.len()
{
    if i < ss.len() {
        render_stmt(ss[i], pad).add(render_stmts_from(ss, i + 1, pad))
    } else {
        Seq::empty()
    }
}

// ---------------------------------------------------------------------------
// Declarations
// ---------------------------------------------------------------------------
/// The implicit wire declarations in front of a block.
pub open spec fn wire_lines_from(ws: Seq<Seq<char>>, i: int, pad: Seq<char>) -> Seq<char>
    decreases ws.len() - i,
    when 0 <= i <= ws.len()
{
    if i < ws.len() {
        pad.add("wire "@).add(ws[i]).add(";\n"@).add(wire_lines_from(ws, i + 1, pad))
    } else {
        Seq::empty()
    }
}

/// The text of a combinatorial block: its implicit wires, then the
/// statements inside an `always @* begin ... end` wrapper.
pub open spec fn render_comb(ss: Seq<StmtV>, pad: Seq<char>, scope: Seq<Seq<char>>) -> Seq<
    char,
> {
    let wires = wires_from(stmts_targets_from(ss, 0), 0, scope, Seq::empty());
    wire_lines_from(wires, 0, pad).add(pad).add("always @* begin\n"@).add(
        render_stmts_from(ss, 0, indent1(pad)),
    ).add(pad).add("end\n"@)
}

/// The text of one declaration at the given pad and scope.
pub open spec fn render_decl(d: DeclV, pad: Seq<char>, scope: Seq<Seq<char>>) -> Seq<char>
    decreases d, 0int,
{
    match d {
        DeclV::Port { direction, is_reg, name, width } => pad.add(
            match direction {
                PortDirection::Input => "input "@,
                PortDirection::Output => "output "@,
            },
        ).add(
            if is_reg {
                "reg "@
            } else {
                Seq::empty()
            },
        ).add(
            if width == 1 {
                Seq::empty()
            } else {
                "["@.add(dec_digits(width - 1)).add(":0] "@)
            },
        ).add(name).add(";\n"@),
        DeclV::Combinatorial(ss) => render_comb(ss, pad, scope),
        DeclV::ConditionalBlock { condition, declarations } => pad.add("generate\n"@).add(
            pad,
        ).add("if ("@).add(condition).add(") begin\n"@).add(
            render_decls_from(
                declarations,
                0,
                indent1(pad),
                scope.add(port_names_from(declarations, 0)),
            ),
        ).add(pad).add("end\n"@).add(pad).add("endgenerate\n"@),
    }
}

/// The text of a declaration list from index `i` on.  The scope handed to
/// every declaration of one list already contains the list's own port
/// names, so a block never re-declares a sibling port.
pub open spec fn render_decls_from(
    ds: Seq<DeclV>,
    i: int,
    pad: Seq<char>,
    scope: Seq<Seq<char>>,
) -> Seq<char>
    decreases ds, ds.len() - i,
    when 0 <= i <= ds.len()
{
    if i < ds.len() {
        render_decl(ds[i], pad, scope).add(render_decls_from(ds, i + 1, pad, scope))
    } else {
        Seq::empty()
    }
}

/// The text of a whole module: a `module` header, the declarations one
/// level in with the module's port names in scope, and `endmodule`.
pub open spec fn render_module(m: ModuleV) -> Seq<char> {
    "module "@.add(m.name).add(";\n"@).add(
        render_decls_from(m.declarations, 0, "    "@, port_names_from(m.declarations, 0)),
    ).add("endmodule\n"@)
}

// ---------------------------------------------------------------------------
// The executable generator
// ---------------------------------------------------------------------------
/// The pad one level deeper.
fn deeper(pad: &String) -> (p: String)
    ensures
        p@ == indent1(pad@),
{
    let mut q = pad.clone();
    q.append("    ");
    q
}

/// Whether a scope holds a name.
fn scope_contains(scope: &Vec<String>, name: &String) -> (r: bool)
    ensures
        r == contains_name(names_view(scope@), name@),
{
    let mut j: usize = 0;
    while j < scope.len()
        invariant
            j <= scope.len(),
            forall|k: int| 0 <= k < j ==> names_view(scope@)[k] != name@,
        decreases scope.len() - j,
    {
        proof {
            assert(names_view(scope@)[j as int] == scope@[j as int]@);
        }
        if scope[j] == *name {
            return true;
        }
        j = j + 1;
    }
    false
}

/// Collects the port names of a declaration list from index `i` on.
fn collect_port_names(ds: &Vec<Declaration>, i: usize, out: &mut Vec<String>)
    requires
        i <= ds.len(),
    ensures
        names_view(final(out)@) == names_view(old(out)@).add(
            port_names_from(decls_view(ds@), i as int),
        ),
    decreases ds.len() - i,
{
    proof {
        crate::ast::lemma_decls_view_index(ds@);
    }
    if i < ds.len() {
        match &ds[i] {
            Declaration::Port { direction, is_reg, name, width } => {
                let ghost pre = out@;
                out.push(name.clone());
                proof {
                    assert(names_view(out@) =~= names_view(pre).push(name@));
                }
                collect_port_names(ds, i + 1, out);
                proof {
                    assert(names_view(pre).push(name@).add(
                        port_names_from(decls_view(ds@), i + 1),
                    ) =~= names_view(pre).add(
                        seq![name@].add(port_names_from(decls_view(ds@), i + 1)),
                    ));
                }
            },
            _ => {
                collect_port_names(ds, i + 1, out);
            },
        }
    } else {
        proof {
            assert(names_view(out@).add(Seq::<Seq<char>>::empty()) =~= names_view(out@));
        }
    }
}

/// Collects the assignment targets of one statement, in depth-first order.
fn collect_stmt_targets(s: &Statement, out: &mut Vec<String>)
    ensures
        names_view(final(out)@) == names_view(old(out)@).add(stmt_targets(stmt_view(*s))),
    decreases s, 0int,
{
    match s {
        Statement::Assignment { target, expr } => {
            let ghost pre = out@;
            out.push(target.clone());
            proof {
                assert(names_view(out@) =~= names_view(pre).push(target@));
                assert(names_view(pre).push(target@) =~= names_view(pre).add(seq![target@]));
            }
        },
        Statement::Switch { switch_expr, cases, default } => {
            let ghost pre = out@;
            collect_cases_targets(cases, 0, out);
            match default {
                Some(d) => {
                    let ghost mid = out@;
                    collect_stmt_targets(d, out);
                    proof {
                        assert(names_view(pre).add(
                            cases_targets_from(crate::ast::cases_view(cases@), 0),
                        ).add(stmt_targets(stmt_view(*(*d)))) =~= names_view(pre).add(
                            cases_targets_from(crate::ast::cases_view(cases@), 0).add(
                                stmt_targets(stmt_view(*(*d))),
                            ),
                        ));
                    }
                },
                None => {
                    proof {
                        assert(names_view(out@).add(Seq::<Seq<char>>::empty()) =~= names_view(
                            out@,
                        ));
                    }
                },
            }
        },
    }
}

/// Collects the assignment targets of a case list from index `i` on.
fn collect_cases_targets(cs: &Vec<(Expr, Statement)>, i: usize, out: &mut Vec<String>)
    requires
        i <= cs.len(),
    ensures
        names_view(final(out)@) == names_view(old(out)@).add(
            cases_targets_from(crate::ast::cases_view(cs@), i as int),
        ),
    decreases cs, cs.len() - i,
{
    proof {
        crate::ast::lemma_cases_view_index(cs@);
    }
    if i < cs.len() {
        let ghost pre = out@;
        collect_stmt_targets(&cs[i].1, out);
        collect_cases_targets(cs, i + 1, out);
        proof {
            let cv = crate::ast::cases_view(cs@);
            assert(names_view(pre).add(stmt_targets(cv[i as int].1)).add(
                cases_targets_from(cv, i + 1),
            ) =~= names_view(pre).add(
                stmt_targets(cv[i as int].1).add(cases_targets_from(cv, i + 1)),
            ));
        }
    } else {
        proof {
            assert(names_view(out@).add(Seq::<Seq<char>>::empty()) =~= names_view(out@));
        }
    }
}

/// Collects the assignment targets of a statement list from index `i` on.
fn collect_stmts_targets(ss: &Vec<Statement>, i: usize, out: &mut Vec<String>)
    requires
        i <= ss.len(),
    ensures
        names_view(final(out)@) == names_view(old(out)@).add(
            stmts_targets_from(stmts_view(ss@), i as int),
        ),
    decreases ss.len() - i,
{
    proof {
        crate::ast::lemma_stmts_view_index(ss@);
    }
    if i < ss.len() {
        let ghost pre = out@;
        collect_stmt_targets(&ss[i], out);
        collect_stmts_targets(ss, i + 1, out);
        proof {
            let sv = stmts_view(ss@);
            assert(names_view(pre).add(stmt_targets(sv[i as int])).add(
                stmts_targets_from(sv, i + 1),
            ) =~= names_view(pre).add(
                stmt_targets(sv[i as int]).add(stmts_targets_from(sv, i + 1)),
            ));
        }
    } else {
        proof {
            assert(names_view(out@).add(Seq::<Seq<char>>::empty()) =~= names_view(out@));
        }
    }
}

/// Appends to `out` the implicit wires among `targets[i..]`: those neither
/// in scope nor already in `out`.
fn collect_wires(targets: &Vec<String>, i: usize, scope: &Vec<String>, out: &mut Vec<String>)
    requires
        i <= targets.len(),
    ensures
        names_view(final(out)@) == names_view(old(out)@).add(
            wires_from(
                names_view(targets@),
                i as int,
                names_view(scope@),
                names_view(old(out)@),
            ),
        ),
    decreases targets.len() - i,
{
    if i < targets.len() {
        proof {
            assert(names_view(targets@)[i as int] == targets@[i as int]@);
        }
        let t = &targets[i];
        if scope_contains(scope, t) || scope_contains(out, t) {
            collect_wires(targets, i + 1, scope, out);
        } else {
            let ghost pre = out@;
            out.push(t.clone());
            proof {
                assert(names_view(out@) =~= names_view(pre).push(t@));
            }
            collect_wires(targets, i + 1, scope, out);
            proof {
                assert(names_view(pre).push(t@).add(
                    wires_from(
                        names_view(targets@),
                        i + 1,
                        names_view(scope@),
                        names_view(pre).push(t@),
                    ),
                ) =~= names_view(pre).add(
                    seq![t@].add(
                        wires_from(
                            names_view(targets@),
                            i + 1,
                            names_view(scope@),
                            names_view(pre).push(t@),
                        ),
                    ),
                ));
            }
        }
    } else {
        proof {
            assert(names_view(out@).add(Seq::<Seq<char>>::empty()) =~= names_view(out@));
        }
    }
}

/// Emits Verilog text from an AST, walking it depth first.
///
/// A generator owns only its output buffer; indentation and scope are
/// threaded through the traversal as explicit parameters, so generation is
/// a pure function of the tree handed to [`Self::generate`].
pub struct CodeGenerator {
    output: String,
}

impl View for CodeGenerator {
    type V = Seq<char>;

    closed spec fn view(&self) -> Seq<char> {
        self.output@
    }
}

impl CodeGenerator {
    /// A fresh generator with an empty output buffer.
    pub fn new() -> (g: CodeGenerator)
        ensures
            g@ == Seq::<char>::empty(),
    {
        CodeGenerator { output: String::new() }
    }

    /// The text emitted so far.
    pub fn get_output(&self) -> (r: &str)
        ensures
            r@ == self@,
    {
        self.output.as_str()
    }

    fn push_lit(&mut self, s: &str)
        ensures
            final(self)@ == old(self)@.add(s@),
    {
        self.output.append(s);
    }

    fn push_string(&mut self, s: &String)
        ensures
            final(self)@ == old(self)@.add(s@),
    {
        self.output.append(s.as_str());
    }

    /// Emits the decimal digits of `n`.
    fn push_dec(&mut self, n: u32)
        ensures
            final(self)@ == old(self)@.add(dec_digits(n as int)),
        decreases n,
    {
        let ghost pre = self@;
        if n >= 10 {
            self.push_dec(n / 10);
        }
        let d = n % 10;
        match d {
            0 => self.push_lit("0"),
            1 => self.push_lit("1"),
            2 => self.push_lit("2"),
            3 => self.push_lit("3"),
            4 => self.push_lit("4"),
            5 => self.push_lit("5"),
            6 => self.push_lit("6"),
            7 => self.push_lit("7"),
            8 => self.push_lit("8"),
            _ => self.push_lit("9"),
        }
        proof {
            reveal_strlit("0");
            reveal_strlit("1");
            reveal_strlit("2");
            reveal_strlit("3");
            reveal_strlit("4");
            reveal_strlit("5");
            reveal_strlit("6");
            reveal_strlit("7");
            reveal_strlit("8");
            reveal_strlit("9");
            if n < 10 {
                assert(pre.add(seq![digit_char(n as int)]) =~= self@);
            } else {
                assert(pre.add(dec_digits(n as int / 10).push(digit_char(n as int % 10)))
                    =~= pre.add(dec_digits(n as int / 10)).add(
                    seq![digit_char(n as int % 10)],
                ));
            }
        }
    }

    /// Emits the text of an expression.
    fn gen_expr(&mut self, e: &Expr)
        ensures
            final(self)@ == old(self)@.add(render_expr(expr_view(*e))),
        decreases e,
    {
        match e {
            Expr::Identifier(s) => self.push_string(s),
            Expr::Literal(t) => self.push_string(t),
            Expr::BinaryOp(l, op, r) => {
                self.gen_expr(l);
                match op {
                    Op::Plus => self.push_lit(" + "),
                    Op::Minus => self.push_lit(" - "),
                    Op::BitAnd => self.push_lit(" & "),
                    Op::BitOr => self.push_lit(" | "),
                }
                self.gen_expr(r);
                proof {
                    reveal_strlit(" + ");
                    reveal_strlit(" - ");
                    reveal_strlit(" & ");
                    reveal_strlit(" | ");
                    reveal_strlit("+");
                    reveal_strlit("-");
                    reveal_strlit("&");
                    reveal_strlit("|");
                    let lv = render_expr(expr_view(*(*l)));
                    let rv = render_expr(expr_view(*(*r)));
                    assert(seq![' '].add(op_text(*op)).add(seq![' ']) =~= match op {
                        Op::Plus => " + "@,
                        Op::Minus => " - "@,
                        Op::BitAnd => " & "@,
                        Op::BitOr => " | "@,
                    });
                    assert(lv.add(seq![' ']).add(op_text(*op)).add(seq![' ']).add(rv)
                        =~= lv.add(seq![' '].add(op_text(*op)).add(seq![' '])).add(rv));
                }
            },
        }
    }

    /// Emits one statement.
    fn gen_stmt(&mut self, s: &Statement, pad: &String)
        ensures
            final(self)@ == old(self)@.add(render_stmt(stmt_view(*s), pad@)),
        decreases s, 0int,
    {
        match s {
            Statement::Assignment { target, expr } => {
                self.push_string(pad);
                self.push_string(target);
                self.push_lit(" = ");
                self.gen_expr(expr);
                self.push_lit(";
");
            },
            Statement::Switch { switch_expr, cases, default } => {
                self.push_string(pad);
                self.push_lit("case (");
                self.gen_expr(switch_expr);
                self.push_lit(")
");
                self.gen_cases(cases, 0, pad);
                match default {
                    Some(d) => {
                        let pad1 = deeper(pad);
                        let pad2 = deeper(&pad1);
                        self.push_string(&pad1);
                        self.push_lit("default:
");
                        self.gen_stmt(d, &pad2);
                    },
                    None => {
                    },
                }
                self.push_string(pad);
                self.push_lit("endcase
");
            },
        }
    }

    /// Emits the case clauses of a switch from index `i` on.
    fn gen_cases(&mut self, cs: &Vec<(Expr, Statement)>, i: usize, pad: &String)
        requires
            i <= cs.len(),
        ensures
            final(self)@ == old(self)@.add(
                render_cases_from(crate::ast::cases_view(cs@), i as int, pad@),
            ),
        decreases cs, cs.len() - i,
    {
        proof {
            crate::ast::lemma_cases_view_index(cs@);
        }
        if i < cs.len() {
            let pad1 = deeper(pad);
            let pad2 = deeper(&pad1);
            self.push_string(&pad1);
            let pair = &cs[i];
            self.gen_expr(&pair.0);
            self.push_lit(":
");
            self.gen_stmt(&pair.1, &pad2);
            self.gen_cases(cs, i + 1, pad);
        }
    }

    /// Emits a statement list from index `i` on.
    fn gen_stmts(&mut self, ss: &Vec<Statement>, i: usize, pad: &String)
        requires
            i <= ss.len(),
        ensures
            final(self)@ == old(self)@.add(
                render_stmts_from(stmts_view(ss@), i as int, pad@),
            ),
        decreases ss.len() - i,
    {
        proof {
            crate::ast::lemma_stmts_view_index(ss@);
        }
        if i < ss.len() {
            self.gen_stmt(&ss[i], pad);
            self.gen_stmts(ss, i + 1, pad);
        }
    }

    /// Emits the implicit wire declarations from index `i` on.
    fn gen_wire_lines(&mut self, ws: &Vec<String>, i: usize, pad: &String)
        requires
            i <= ws.len(),
        ensures
            final(self)@ == old(self)@.add(
                wire_lines_from(names_view(ws@), i as int, pad@),
            ),
        decreases ws.len() - i,
    {
        if i < ws.len() {
            proof {
                assert(names_view(ws@)[i as int] == ws@[i as int]@);
            }
            self.push_string(pad);
            self.push_lit("wire ");
            self.push_string(&ws[i]);
            self.push_lit(";
");
            self.gen_wire_lines(ws, i + 1, pad);
        }
    }

    /// Emits a combinatorial block: its implicit wires, then its statements
    /// inside an always-block, with a fresh block scope discarded on exit.
    fn gen_comb(&mut self, ss: &Vec<Statement>, pad: &String, scope: &Vec<String>)
        ensures
            final(self)@ == old(self)@.add(
                render_comb(stmts_view(ss@), pad@, names_view(scope@)),
            ),
    {
        let mut targets: Vec<String> = Vec::new();
        collect_stmts_targets(ss, 0, &mut targets);
        proof {
            assert(names_view(Seq::<String>::empty()) =~= Seq::<Seq<char>>::empty());
            assert(Seq::<Seq<char>>::empty().add(
                stmts_targets_from(stmts_view(ss@), 0),
            ) =~= stmts_targets_from(stmts_view(ss@), 0));
        }
        let mut wires: Vec<String> = Vec::new();
        collect_wires(&targets, 0, scope, &mut wires);
        proof {
            assert(Seq::<Seq<char>>::empty().add(
                wires_from(
                    names_view(targets@),
                    0,
                    names_view(scope@),
                    Seq::<Seq<char>>::empty(),
                ),
            ) =~= wires_from(
                names_view(targets@),
                0,
                names_view(scope@),
                Seq::<Seq<char>>::empty(),
            ));
        }
        self.gen_wire_lines(&wires, 0, pad);
        self.push_string(pad);
        self.push_lit("always @* begin
");
        let pad1 = deeper(pad);
        self.gen_stmts(ss, 0, &pad1);
        self.push_string(pad);
        self.push_lit("end
");
    }

    /// Emits one declaration.
    fn gen_decl(&mut self, d: &Declaration, pad: &String, scope: &Vec<String>)
        requires
            decl_wf(decl_view(*d)),
        ensures
            final(self)@ == old(self)@.add(
                render_decl(decl_view(*d), pad@, names_view(scope@)),
            ),
        decreases d, 0int,
    {
        match d {
            Declaration::Port { direction, is_reg, name, width } => {
                self.push_string(pad);
                match direction {
                    PortDirection::Input => self.push_lit("input "),
                    PortDirection::Output => self.push_lit("output "),
                }
                if *is_reg {
                    self.push_lit("reg ");
                }
                if *width != 1 {
                    self.push_lit("[");
                    self.push_dec(*width - 1);
                    self.push_lit(":0] ");
                }
                self.push_string(name);
                self.push_lit(";
");
            },
            Declaration::Combinatorial(ss) => {
                self.gen_comb(ss, pad, scope);
            },
            Declaration::ConditionalBlock { condition, declarations } => {
                self.push_string(pad);
                self.push_lit("generate
");
                self.push_string(pad);
                self.push_lit("if (");
                self.push_string(condition);
                self.push_lit(") begin
");
                let mut inner_scope: Vec<String> = Vec::new();
                clone_names(scope, &mut inner_scope);
                collect_port_names(declarations, 0, &mut inner_scope);
                proof {
                    crate::ast::lemma_decls_view_index(declarations@);
                    let dv = decl_view(*d);
                    assert(dv == (DeclV::ConditionalBlock {
                        condition: condition@,
                        declarations: decls_view(declarations@),
                    }));
                    assert forall|j: int|
                        0 <= j < declarations@.len() implies decl_wf(
                        #[trigger] decls_view(declarations@)[j],
                    ) by {
                        assert(decl_wf(dv->ConditionalBlock_declarations[j]));
                    }
                    assert(names_view(Seq::<String>::empty()) =~= Seq::<Seq<char>>::empty());
                    assert(Seq::<Seq<char>>::empty().add(names_view(scope@)) =~= names_view(
                        scope@,
                    ));
                }
                let pad1 = deeper(pad);
                self.gen_decls(declarations, 0, &pad1, &inner_scope);
                self.push_string(pad);
                self.push_lit("end
");
                self.push_string(pad);
                self.push_lit("endgenerate
");
            },
        }
    }

    /// Emits a declaration list from index `i` on.
    fn gen_decls(&mut self, ds: &Vec<Declaration>, i: usize, pad: &String, scope: &Vec<String>)
        requires
            i <= ds.len(),
            forall|j: int| 0 <= j < ds@.len() ==> decl_wf(#[trigger] decls_view(ds@)[j]),
        ensures
            final(self)@ == old(self)@.add(
                render_decls_from(decls_view(ds@), i as int, pad@, names_view(scope@)),
            ),
        decreases ds, ds.len() - i,
    {
        proof {
            crate::ast::lemma_decls_view_index(ds@);
        }
        if i < ds.len() {
            proof {
                assert(decl_wf(decls_view(ds@)[i as int]));
                assert(decls_view(ds@)[i as int] == decl_view(ds@[i as int]));
            }
            self.gen_decl(&ds[i], pad, scope);
            self.gen_decls(ds, i + 1, pad, scope);
        }
    }

    /// Emits the Verilog text of a whole module, appending it to the
    /// output buffer.  The tree must satisfy the data model's invariants
    /// ([`module_wf`]); the parser establishes them, and handing the
    /// generator a malformed tree is a programming error, not an input
    /// error.
    pub fn generate(&mut self, module: &Module)
        requires
            module_wf(module@),
        ensures
            final(self)@ == old(self)@.add(render_module(module@)),
    {
        self.push_lit("module ");
        self.push_string(&module.name);
        self.push_lit(";
");
        let mut scope: Vec<String> = Vec::new();
        collect_port_names(&module.declarations, 0, &mut scope);
        proof {
            crate::ast::lemma_decls_view_index(module.declarations@);
            assert forall|j: int|
                0 <= j < module.declarations@.len() implies decl_wf(
                #[trigger] decls_view(module.declarations@)[j],
            ) by {
                assert(decl_wf(module@.declarations[j]));
            }
            assert(names_view(Seq::<String>::empty()) =~= Seq::<Seq<char>>::empty());
            assert(Seq::<Seq<char>>::empty().add(
                port_names_from(decls_view(module.declarations@), 0),
            ) =~= port_names_from(decls_view(module.declarations@), 0));
        }
        let pad = deeper(&String::new());
        proof {
            assert(Seq::<char>::empty().add("    "@) =~= "    "@);
        }
        self.gen_decls(&module.declarations, 0, &pad, &scope);
        self.push_lit("endmodule
");
    }
}

/// Copies every name of a scope into `out`, preserving order.
fn clone_names(scope: &Vec<String>, out: &mut Vec<String>)
    ensures
        names_view(final(out)@) == names_view(old(out)@).add(names_view(scope@)),
{
    let mut j: usize = 0;
    while j < scope.len()
        invariant
            j <= scope.len(),
            names_view(out@) == names_view(old(out)@).add(
                names_view(scope@).subrange(0, j as int),
            ),
        decreases scope.len() - j,
    {
        let ghost pre = out@;
        proof {
            assert(names_view(scope@)[j as int] == scope@[j as int]@);
        }
        out.push(scope[j].clone());
        j = j + 1;
        proof {
            assert(names_view(out@) =~= names_view(pre).push(scope@[j - 1]@));
            assert(names_view(scope@).subrange(0, j as int) =~= names_view(scope@).subrange(
                0,
                j - 1,
            ).push(names_view(scope@)[j - 1]));
            assert(names_view(out@) =~= names_view(old(out)@).add(
                names_view(scope@).subrange(0, j as int),
            ));
        }
    }
    proof {
        assert(names_view(scope@).subrange(0, scope@.len() as int) =~= names_view(scope@));
    }
}

} // verus!
