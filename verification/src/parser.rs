//! Syntactic analysis: from the token sequence to a [`Module`] or a syntax
//! error.
//!
//! The grammar is parsed by recursive descent, one rule per nonterminal:
//!
//! ```text
//! module      := `module` IDENT `{` declaration* `}`
//! declaration := port_decl | combinatorial_decl | gen_if_decl
//! port_decl   := `port` (`input`|`output`) `reg`? IDENT (`[` INTEGER `]`)? `;`
//! combinatorial_decl := `combinatorial` `{` statement* `}`
//! gen_if_decl := `gen` `if` `(` IDENT `)` `{` (`case` expr `:` statement)* `}`
//! statement   := assignment | switch_stmt
//! assignment  := IDENT `=` expr `;`
//! switch_stmt := `switch` `(` expr `)` `{` (`case` expr `:` statement)*
//!                (`default` `:` statement)? `}`
//! expr        := atom ((`+`|`-`|`&`|`|`) atom)*     (left-associative,
//!                                                    single precedence level)
//! atom        := IDENT | BIT_VECTOR_LITERAL
//! ```
//!
//! A port's width clause may be omitted; the width then defaults to 1.  A
//! `gen if` with at least one case produces a conditional block holding one
//! combinatorial declaration that wraps one switch over the collected cases
//! (its subject left as a neutral placeholder for a later semantic stage);
//! with no cases it produces an empty conditional block.
//!
//! The parser is fail-fast: on the first grammar mismatch it stops and
//! reports that one error, and no tree is returned.  The executable
//! [`parse`] is proved to return exactly the result of the spec-level
//! parser [`spec_parse`], and every tree it returns is well-formed
//! ([`module_wf`]): in particular a switch with neither cases nor a
//! default arm is always rejected, never represented.

use vstd::prelude::*;

use crate::ast::{DeclV, Declaration, Expr, ExprV, Module, ModuleV, Op, PortDirection, Statement,
    StmtV};
use crate::ast::{decl_view, expr_view, module_wf, stmt_view};
use crate::token::{tokens_view, Span, TokenV, VToken};

verus! {

/// What the parser was looking for when it stopped.
#[derive(Clone, Copy, Debug, PartialEq, Eq, Structural)]
pub enum Expected {
    /// An identifier.
    Ident,
    /// The `module` keyword opening the compilation unit.
    ModuleKw,
    /// `input` or `output` after `port`.
    Direction,
    /// The `if` keyword after `gen`.
    IfKw,
    /// A declaration: `port`, `combinatorial` or `gen`.
    Declaration,
    /// A statement: an assignment target or `switch`.
    Statement,
    /// An expression atom: an identifier or a bit-vector literal.
    Atom,
    /// At least one `case` clause or a `default` arm inside a switch.
    CaseOrDefault,
    /// A width: an integer between 1 and `u32::MAX`.
    Width,
    /// The end of the input after the closing brace.
    Eof,
    LBrace,
    RBrace,
    LBracket,
    RBracket,
    LParen,
    RParen,
    Colon,
    Semicolon,
    Assign,
}

/// A syntax diagnostic: what was expected, the token found instead (`None`
/// at end of input), and where.
#[derive(Clone, Debug, PartialEq)]
pub struct ParseError {
    pub expected: Expected,
    pub found: Option<VToken>,
    pub span: Span,
}

/// The mathematical value of a [`ParseError`].
pub struct ParseErrorV {
    pub expected: Expected,
    pub found: Option<TokenV>,
    pub span: Span,
}

impl View for ParseError {
    type V = ParseErrorV;

    open spec fn view(&self) -> ParseErrorV {
        ParseErrorV {
            expected: self.expected,
            found: match &self.found {
                Some(t) => Some(t@),
                None => None,
            },
            span: self.span,
        }
    }
}

/// The span reported for an error at the end of the input: an empty span
/// just past the last token.
pub open spec fn eoi_span(ts: Seq<(TokenV, Span)>) -> Span {
    if ts.len() == 0 {
        Span { start: 0, end: 0 }
    } else {
        Span { start: ts.last().1.end, end: ts.last().1.end }
    }
}

/// The error raised at position `pos` when `exp` was expected.
pub open spec fn err_at(ts: Seq<(TokenV, Span)>, pos: int, exp: Expected) -> ParseErrorV {
    if 0 <= pos < ts.len() {
        ParseErrorV { expected: exp, found: Some(ts[pos].0), span: ts[pos].1 }
    } else {
        ParseErrorV { expected: exp, found: None, span: eoi_span(ts) }
    }
}

/// Whether the token at `pos` is exactly `t`.
pub open spec fn is_tok(ts: Seq<(TokenV, Span)>, pos: int, t: TokenV) -> bool {
    0 <= pos < ts.len() && ts[pos].0 == t
}

/// The binary operator a token denotes, if any.
pub open spec fn binop_of(t: TokenV) -> Option<Op> {
    match t {
        TokenV::Plus => Some(Op::Plus),
        TokenV::Minus => Some(Op::Minus),
        TokenV::BitAnd => Some(Op::BitAnd),
        TokenV::BitOr => Some(Op::BitOr),
        _ => None,
    }
}

/// The resume position of a sub-parse, clamped so that progress is manifest
/// to the termination checker.  Every rule consumes at least one token, so
/// the clamp is inert; it only spares the definitions a simultaneous
/// induction over the grammar.
pub open spec fn bump(ts: Seq<(TokenV, Span)>, pos: int, q: int) -> int {
    if pos < q <= ts.len() {
        q
    } else {
        pos + 1
    }
}

// ---------------------------------------------------------------------------
// Expressions
// ---------------------------------------------------------------------------
/// One expression atom.
pub open spec fn p_atom(ts: Seq<(TokenV, Span)>, pos: int) -> Result<
    (ExprV, int),
    ParseErrorV,
> {
    if 0 <= pos < ts.len() {
        match ts[pos].0 {
            TokenV::Identifier(s) => Ok((ExprV::Identifier(s), pos + 1)),
            TokenV::BitVector(t) => Ok((ExprV::Literal(t), pos + 1)),
            _ => Err(err_at(ts, pos, Expected::Atom)),
        }
    } else {
        Err(err_at(ts, pos, Expected::Atom))
    }
}

/// The left-associative tail of an expression: while an operator follows,
/// fold the next atom into the accumulator.
pub open spec fn p_expr_rest(ts: Seq<(TokenV, Span)>, pos: int, acc: ExprV) -> Result<
    (ExprV, int),
    ParseErrorV,
>
    decreases ts.len() - pos,
    when 0 <= pos <= ts.len()
{
    if pos < ts.len() && binop_of(ts[pos].0) is Some {
        let op = binop_of(ts[pos].0).unwrap();
        match p_atom(ts, pos + 1) {
            Ok((rhs, p2)) => p_expr_rest(
                ts,
                bump(ts, pos, p2),
                ExprV::BinaryOp(Box::new(acc), op, Box::new(rhs)),
            ),
            Err(e) => Err(e),
        }
    } else {
        Ok((acc, pos))
    }
}

/// A whole expression: an atom followed by its operator tail.
pub open spec fn p_expr(ts: Seq<(TokenV, Span)>, pos: int) -> Result<
    (ExprV, int),
    ParseErrorV,
> {
    match p_atom(ts, pos) {
        Ok((a, p)) => p_expr_rest(ts, p, a),
        Err(e) => Err(e),
    }
}

// ---------------------------------------------------------------------------
// Statements
// ---------------------------------------------------------------------------
/// One statement: an assignment or a switch.
pub open spec fn p_stmt(ts: Seq<(TokenV, Span)>, pos: int) -> Result<
    (StmtV, int),
    ParseErrorV,
>
    decreases ts.len() - pos, 1int,
    when 0 <= pos <= ts.len()
{
    if 0 <= pos < ts.len() {
        match ts[pos].0 {
            TokenV::Identifier(name) => if is_tok(ts, pos + 1, TokenV::Assign) {
                match p_expr(ts, pos + 2) {
                    Ok((e, p)) => if is_tok(ts, p, TokenV::Semicolon) {
                        Ok((StmtV::Assignment { target: name, expr: e }, p + 1))
                    } else {
                        Err(err_at(ts, p, Expected::Semicolon))
                    },
                    Err(e) => Err(e),
                }
            } else {
                Err(err_at(ts, pos + 1, Expected::Assign))
            },
            TokenV::Switch => p_switch(ts, pos),
            _ => Err(err_at(ts, pos, Expected::Statement)),
        }
    } else {
        Err(err_at(ts, pos, Expected::Statement))
    }
}

/// A switch statement.  A switch with neither cases nor a default arm is a
/// syntax error, reported at its closing brace.
pub open spec fn p_switch(ts: Seq<(TokenV, Span)>, pos: int) -> Result<
    (StmtV, int),
    ParseErrorV,
>
    decreases ts.len() - pos, 0int,
    when 0 <= pos <= ts.len()
{
    if is_tok(ts, pos, TokenV::Switch) {
        if is_tok(ts, pos + 1, TokenV::LParen) {
            match p_expr(ts, pos + 2) {
                Ok((subject, p3)) => if is_tok(ts, p3, TokenV::RParen) {
                    if is_tok(ts, p3 + 1, TokenV::LBrace) {
                        match p_cases(ts, bump(ts, pos, p3 + 2)) {
                            Ok(((cases, default), p4)) => if is_tok(ts, p4, TokenV::RBrace) {
                                if cases.len() == 0 && default is None {
                                    Err(err_at(ts, p4, Expected::CaseOrDefault))
                                } else {
                                    Ok(
                                        (
                                            StmtV::Switch {
                                                switch_expr: subject,
                                                cases,
                                                default: match default {
                                                    Some(d) => Some(Box::new(d)),
                                                    None => None,
                                                },
                                            },
                                            p4 + 1,
                                        ),
                                    )
                                }
                            } else {
                                Err(err_at(ts, p4, Expected::RBrace))
                            },
                            Err(e) => Err(e),
                        }
                    } else {
                        Err(err_at(ts, p3 + 1, Expected::LBrace))
                    }
                } else {
                    Err(err_at(ts, p3, Expected::RParen))
                },
                Err(e) => Err(e),
            }
        } else {
            Err(err_at(ts, pos + 1, Expected::LParen))
        }
    } else {
        Err(err_at(ts, pos, Expected::Statement))
    }
}

/// The case clauses of a switch, then an optional default arm.  Stops in
/// front of the first token that opens neither.
pub open spec fn p_cases(ts: Seq<(TokenV, Span)>, pos: int) -> Result<
    ((Seq<(ExprV, StmtV)>, Option<StmtV>), int),
    ParseErrorV,
>
    decreases ts.len() - pos, 2int,
    when 0 <= pos <= ts.len()
{
    if is_tok(ts, pos, TokenV::Case) {
        match p_expr(ts, pos + 1) {
            Ok((label, p1)) => if is_tok(ts, p1, TokenV::Colon) {
                match p_stmt(ts, bump(ts, pos, p1 + 1)) {
                    Ok((body, p2)) => match p_cases(ts, bump(ts, pos, p2)) {
                        Ok(((cases, default), p3)) => Ok(
                            ((seq![(label, body)].add(cases), default), p3),
                        ),
                        Err(e) => Err(e),
                    },
                    Err(e) => Err(e),
                }
            } else {
                Err(err_at(ts, p1, Expected::Colon))
            },
            Err(e) => Err(e),
        }
    } else if is_tok(ts, pos, TokenV::Default) {
        if is_tok(ts, pos + 1, TokenV::Colon) {
            match p_stmt(ts, bump(ts, pos, pos + 2)) {
                Ok((body, p2)) => Ok(((Seq::empty(), Some(body)), p2)),
                Err(e) => Err(e),
            }
        } else {
            Err(err_at(ts, pos + 1, Expected::Colon))
        }
    } else {
        Ok(((Seq::empty(), None), pos))
    }
}

/// The statement list of a combinatorial block.  Stops in front of the
/// closing brace.
pub open spec fn p_stmts(ts: Seq<(TokenV, Span)>, pos: int) -> Result<
    (Seq<StmtV>, int),
    ParseErrorV,
>
    decreases ts.len() - pos,
    when 0 <= pos <= ts.len()
{
    if pos < ts.len() && !(ts[pos].0 == TokenV::RBrace) {
        match p_stmt(ts, pos) {
            Ok((s, p)) => match p_stmts(ts, bump(ts, pos, p)) {
                Ok((rest, p2)) => Ok((seq![s].add(rest), p2)),
                Err(e) => Err(e),
            },
            Err(e) => Err(e),
        }
    } else {
        Ok((Seq::empty(), pos))
    }
}

/// The case clauses of a `gen if` body (no default arm).  Stops in front
/// of the first token that is not `case`.
pub open spec fn p_gen_cases(ts: Seq<(TokenV, Span)>, pos: int) -> Result<
    (Seq<(ExprV, StmtV)>, int),
    ParseErrorV,
>
    decreases ts.len() - pos,
    when 0 <= pos <= ts.len()
{
    if is_tok(ts, pos, TokenV::Case) {
        match p_expr(ts, pos + 1) {
            Ok((label, p1)) => if is_tok(ts, p1, TokenV::Colon) {
                match p_stmt(ts, bump(ts, pos, p1 + 1)) {
                    Ok((body, p2)) => match p_gen_cases(ts, bump(ts, pos, p2)) {
                        Ok((cases, p3)) => Ok((seq![(label, body)].add(cases), p3)),
                        Err(e) => Err(e),
                    },
                    Err(e) => Err(e),
                }
            } else {
                Err(err_at(ts, p1, Expected::Colon))
            },
            Err(e) => Err(e),
        }
    } else {
        Ok((Seq::empty(), pos))
    }
}

// ---------------------------------------------------------------------------
// Declarations
// ---------------------------------------------------------------------------
/// A port declaration, starting at its `port` keyword.  The width clause is
/// optional and defaults to 1; an explicit width must be an integer between
/// 1 and `u32::MAX`.
pub open spec fn p_port(ts: Seq<(TokenV, Span)>, pos: int) -> Result<
    (DeclV, int),
    ParseErrorV,
> {
    if is_tok(ts, pos, TokenV::Port) {
        let dir = if is_tok(ts, pos + 1, TokenV::Input) {
            Some(PortDirection::Input)
        } else if is_tok(ts, pos + 1, TokenV::Output) {
            Some(PortDirection::Output)
        } else {
            None
        };
        match dir {
            None => Err(err_at(ts, pos + 1, Expected::Direction)),
            Some(direction) => {
                let is_reg = is_tok(ts, pos + 2, TokenV::Reg);
                let p = if is_reg {
                    pos + 3
                } else {
                    pos + 2
                };
                if 0 <= p < ts.len() && ts[p].0 is Identifier {
                    let name = ts[p].0->Identifier_0;
                    if is_tok(ts, p + 1, TokenV::LBracket) {
                        if p + 2 < ts.len() && ts[p + 2].0 is Integer {
                            let w = ts[p + 2].0->Integer_0;
                            if 1 <= w <= u32::MAX {
                                if is_tok(ts, p + 3, TokenV::RBracket) {
                                    if is_tok(ts, p + 4, TokenV::Semicolon) {
                                        Ok(
                                            (
                                                DeclV::Port {
                                                    direction,
                                                    is_reg,
                                                    name,
                                                    width: w as u32,
                                                },
                                                p + 5,
                                            ),
                                        )
                                    } else {
                                        Err(err_at(ts, p + 4, Expected::Semicolon))
                                    }
                                } else {
                                    Err(err_at(ts, p + 3, Expected::RBracket))
                                }
                            } else {
                                Err(err_at(ts, p + 2, Expected::Width))
                            }
                        } else {
                            Err(err_at(ts, p + 2, Expected::Width))
                        }
                    } else if is_tok(ts, p + 1, TokenV::Semicolon) {
                        Ok((DeclV::Port { direction, is_reg, name, width: 1u32 }, p + 2))
                    } else {
                        Err(err_at(ts, p + 1, Expected::Semicolon))
                    }
                } else {
                    Err(err_at(ts, p, Expected::Ident))
                }
            },
        }
    } else {
        Err(err_at(ts, pos, Expected::Declaration))
    }
}

/// A combinatorial block, starting at its `combinatorial` keyword.
pub open spec fn p_comb(ts: Seq<(TokenV, Span)>, pos: int) -> Result<
    (DeclV, int),
    ParseErrorV,
> {
    if is_tok(ts, pos, TokenV::Combinatorial) {
        if is_tok(ts, pos + 1, TokenV::LBrace) {
            match p_stmts(ts, bump(ts, pos, pos + 2)) {
                Ok((stmts, p)) => if is_tok(ts, p, TokenV::RBrace) {
                    Ok((DeclV::Combinatorial(stmts), p + 1))
                } else {
                    Err(err_at(ts, p, Expected::RBrace))
                },
                Err(e) => Err(e),
            }
        } else {
            Err(err_at(ts, pos + 1, Expected::LBrace))
        }
    } else {
        Err(err_at(ts, pos, Expected::Declaration))
    }
}

/// The neutral placeholder standing for a `gen if` switch's subject, which
/// a later semantic stage would resolve.
pub open spec fn placeholder_expr() -> ExprV {
    ExprV::Identifier(Seq::empty())
}

/// A `gen if` declaration, starting at its `gen` keyword.  Its collected
/// cases become one switch inside one combinatorial declaration inside the
/// conditional block; with no cases the block is empty, so a switch with
/// neither cases nor default is never built.
pub open spec fn p_genif(ts: Seq<(TokenV, Span)>, pos: int) -> Result<
    (DeclV, int),
    ParseErrorV,
> {
    if is_tok(ts, pos, TokenV::Gen) {
        if is_tok(ts, pos + 1, TokenV::If) {
            if is_tok(ts, pos + 2, TokenV::LParen) {
                if 0 <= pos + 3 < ts.len() && ts[pos + 3].0 is Identifier && ts[pos
                    + 3].0->Identifier_0.len() > 0 {
                    let condition = ts[pos + 3].0->Identifier_0;
                    if is_tok(ts, pos + 4, TokenV::RParen) {
                        if is_tok(ts, pos + 5, TokenV::LBrace) {
                            match p_gen_cases(ts, bump(ts, pos, pos + 6)) {
                                Ok((cases, p)) => if is_tok(ts, p, TokenV::RBrace) {
                                    let declarations: Seq<DeclV> = if cases.len() == 0 {
                                        Seq::empty()
                                    } else {
                                        seq![
                                            DeclV::Combinatorial(
                                                seq![
                                                    StmtV::Switch {
                                                        switch_expr: placeholder_expr(),
                                                        cases,
                                                        default: None,
                                                    },
                                                ],
                                            ),
                                        ]
                                    };
                                    Ok((DeclV::ConditionalBlock { condition, declarations }, p + 1))
                                } else {
                                    Err(err_at(ts, p, Expected::RBrace))
                                },
                                Err(e) => Err(e),
                            }
                        } else {
                            Err(err_at(ts, pos + 5, Expected::LBrace))
                        }
                    } else {
                        Err(err_at(ts, pos + 4, Expected::RParen))
                    }
                } else {
                    Err(err_at(ts, pos + 3, Expected::Ident))
                }
            } else {
                Err(err_at(ts, pos + 2, Expected::LParen))
            }
        } else {
            Err(err_at(ts, pos + 1, Expected::IfKw))
        }
    } else {
        Err(err_at(ts, pos, Expected::Declaration))
    }
}

/// One declaration, dispatched on its leading keyword.
pub open spec fn p_decl(ts: Seq<(TokenV, Span)>, pos: int) -> Result<
    (DeclV, int),
    ParseErrorV,
> {
    if 0 <= pos < ts.len() {
        match ts[pos].0 {
            TokenV::Port => p_port(ts, pos),
            TokenV::Combinatorial => p_comb(ts, pos),
            TokenV::Gen => p_genif(ts, pos),
            _ => Err(err_at(ts, pos, Expected::Declaration)),
        }
    } else {
        Err(err_at(ts, pos, Expected::Declaration))
    }
}

/// The declaration list of a module body.  Stops in front of the closing
/// brace.
pub open spec fn p_decls(ts: Seq<(TokenV, Span)>, pos: int) -> Result<
    (Seq<DeclV>, int),
    ParseErrorV,
>
    decreases ts.len() - pos,
    when 0 <= pos <= ts.len()
{
    if pos < ts.len() && !(ts[pos].0 == TokenV::RBrace) {
        match p_decl(ts, pos) {
            Ok((d, p)) => match p_decls(ts, bump(ts, pos, p)) {
                Ok((rest, p2)) => Ok((seq![d].add(rest), p2)),
                Err(e) => Err(e),
            },
            Err(e) => Err(e),
        }
    } else {
        Ok((Seq::empty(), pos))
    }
}

/// A whole compilation unit: one module, then the end of the input.
pub open spec fn spec_parse(ts: Seq<(TokenV, Span)>) -> Result<ModuleV, ParseErrorV> {
    if is_tok(ts, 0, TokenV::Module) {
        if 1 < ts.len() && ts[1].0 is Identifier {
            let name = ts[1].0->Identifier_0;
            if is_tok(ts, 2, TokenV::LBrace) {
                match p_decls(ts, 3) {
                    Ok((declarations, p)) => if is_tok(ts, p, TokenV::RBrace) {
                        if p + 1 == ts.len() {
                            Ok(ModuleV { name, declarations })
                        } else {
                            Err(err_at(ts, p + 1, Expected::Eof))
                        }
                    } else {
                        Err(err_at(ts, p, Expected::RBrace))
                    },
                    Err(e) => Err(e),
                }
            } else {
                Err(err_at(ts, 2, Expected::LBrace))
            }
        } else {
            Err(err_at(ts, 1, Expected::Ident))
        }
    } else {
        Err(err_at(ts, 0, Expected::ModuleKw))
    }
}

// ---------------------------------------------------------------------------
// The executable parser
// ---------------------------------------------------------------------------
/// The view of an optional statement.
pub open spec fn opt_stmt_view(o: Option<Statement>) -> Option<StmtV> {
    match o {
        Some(s) => Some(stmt_view(s)),
        None => None,
    }
}

/// Whether the token at `pos` is the given data-free token.
fn tok_at_is(ts: &Vec<(VToken, Span)>, pos: usize, t: &VToken) -> (r: bool)
    requires
        !(t@ is Identifier),
        !(t@ is Integer),
        !(t@ is BitVector),
        !(t@ is StringLiteral),
    ensures
        r == is_tok(tokens_view(ts@), pos as int, t@),
        r ==> pos < ts.len(),
{
    proof {
        if pos < ts.len() {
            assert(tokens_view(ts@)[pos as int] == (ts@[pos as int].0@, ts@[pos as int].1));
        }
    }
    if pos < ts.len() {
        match (&ts[pos].0, t) {
            (VToken::Module, VToken::Module) => true,
            (VToken::Port, VToken::Port) => true,
            (VToken::Input, VToken::Input) => true,
            (VToken::Output, VToken::Output) => true,
            (VToken::Reg, VToken::Reg) => true,
            (VToken::Wire, VToken::Wire) => true,
            (VToken::Combinatorial, VToken::Combinatorial) => true,
            (VToken::Switch, VToken::Switch) => true,
            (VToken::Case, VToken::Case) => true,
            (VToken::Default, VToken::Default) => true,
            (VToken::Gen, VToken::Gen) => true,
            (VToken::If, VToken::If) => true,
            (VToken::LBrace, VToken::LBrace) => true,
            (VToken::RBrace, VToken::RBrace) => true,
            (VToken::LBracket, VToken::LBracket) => true,
            (VToken::RBracket, VToken::RBracket) => true,
            (VToken::LParen, VToken::LParen) => true,
            (VToken::RParen, VToken::RParen) => true,
            (VToken::Colon, VToken::Colon) => true,
            (VToken::Semicolon, VToken::Semicolon) => true,
            (VToken::Assign, VToken::Assign) => true,
            (VToken::Plus, VToken::Plus) => true,
            (VToken::Minus, VToken::Minus) => true,
            (VToken::BitAnd, VToken::BitAnd) => true,
            (VToken::BitOr, VToken::BitOr) => true,
            (VToken::BitXor, VToken::BitXor) => true,
            (VToken::Shl, VToken::Shl) => true,
            _ => false,
        }
    } else {
        false
    }
}

/// The error value for position `pos` when `exp` was expected there.
fn err_here(ts: &Vec<(VToken, Span)>, pos: usize, exp: Expected) -> (e: ParseError)
    ensures
        e@ == err_at(tokens_view(ts@), pos as int, exp),
{
    proof {
        if pos < ts.len() {
            assert(tokens_view(ts@)[pos as int] == (ts@[pos as int].0@, ts@[pos as int].1));
        }
        if ts.len() > 0 {
            assert(tokens_view(ts@)[ts@.len() - 1] == (ts@[ts@.len() - 1].0@, ts@[ts@.len()
                - 1].1));
        }
    }
    if pos < ts.len() {
        ParseError { expected: exp, found: Some(ts[pos].0.clone()), span: ts[pos].1 }
    } else if ts.len() == 0 {
        ParseError { expected: exp, found: None, span: Span { start: 0, end: 0 } }
    } else {
        let last = ts[ts.len() - 1].1;
        ParseError { expected: exp, found: None, span: Span { start: last.end, end: last.end } }
    }
}

/// The binary operator a token denotes, if any.
fn binop_x(t: &VToken) -> (r: Option<Op>)
    ensures
        r == binop_of(t@),
{
    match t {
        VToken::Plus => Some(Op::Plus),
        VToken::Minus => Some(Op::Minus),
        VToken::BitAnd => Some(Op::BitAnd),
        VToken::BitOr => Some(Op::BitOr),
        _ => None,
    }
}

/// One expression atom.
fn parse_atom(ts: &Vec<(VToken, Span)>, pos: usize) -> (r: Result<(Expr, usize), ParseError>)
    requires
        pos <= ts.len(),
    ensures
        match r {
            Ok((e, p)) => p_atom(tokens_view(ts@), pos as int) == Ok::<(ExprV, int), ParseErrorV>(
                (expr_view(e), p as int),
            ) && pos < p <= ts.len(),
            Err(pe) => p_atom(tokens_view(ts@), pos as int) == Err::<(ExprV, int), ParseErrorV>(
                pe@,
            ),
        },
{
    proof {
        if pos < ts.len() {
            assert(tokens_view(ts@)[pos as int] == (ts@[pos as int].0@, ts@[pos as int].1));
        }
    }
    if pos < ts.len() {
        match &ts[pos].0 {
            VToken::Identifier(s) => Ok((Expr::Identifier(s.clone()), pos + 1)),
            VToken::BitVector(t) => Ok((Expr::Literal(t.clone()), pos + 1)),
            _ => Err(err_here(ts, pos, Expected::Atom)),
        }
    } else {
        Err(err_here(ts, pos, Expected::Atom))
    }
}

/// The left-associative operator tail of an expression.
fn parse_expr_rest(ts: &Vec<(VToken, Span)>, pos: usize, acc: Expr) -> (r: Result<
    (Expr, usize),
    ParseError,
>)
    requires
        pos <= ts.len(),
    ensures
        match r {
            Ok((e, p)) => p_expr_rest(tokens_view(ts@), pos as int, expr_view(acc)) == Ok::<
                (ExprV, int),
                ParseErrorV,
            >((expr_view(e), p as int)) && pos <= p <= ts.len(),
            Err(pe) => p_expr_rest(tokens_view(ts@), pos as int, expr_view(acc)) == Err::<
                (ExprV, int),
                ParseErrorV,
            >(pe@),
        },
    decreases ts.len() - pos,
{
    proof {
        if pos < ts.len() {
            assert(tokens_view(ts@)[pos as int] == (ts@[pos as int].0@, ts@[pos as int].1));
        }
    }
    if pos < ts.len() {
        let op_opt = binop_x(&ts[pos].0);
        match op_opt {
            Some(op) => match parse_atom(ts, pos + 1) {
                Ok((rhs, p2)) => parse_expr_rest(
                    ts,
                    p2,
                    Expr::BinaryOp(Box::new(acc), op, Box::new(rhs)),
                ),
                Err(e) => Err(e),
            },
            None => Ok((acc, pos)),
        }
    } else {
        Ok((acc, pos))
    }
}

/// A whole expression.
fn parse_expr(ts: &Vec<(VToken, Span)>, pos: usize) -> (r: Result<(Expr, usize), ParseError>)
    requires
        pos <= ts.len(),
    ensures
        match r {
            Ok((e, p)) => p_expr(tokens_view(ts@), pos as int) == Ok::<(ExprV, int), ParseErrorV>(
                (expr_view(e), p as int),
            ) && pos < p <= ts.len(),
            Err(pe) => p_expr(tokens_view(ts@), pos as int) == Err::<(ExprV, int), ParseErrorV>(
                pe@,
            ),
        },
{
    match parse_atom(ts, pos) {
        Ok((a, p)) => parse_expr_rest(ts, p, a),
        Err(e) => Err(e),
    }
}

/// One statement.
fn parse_stmt(ts: &Vec<(VToken, Span)>, pos: usize) -> (r: Result<(Statement, usize), ParseError>)
    requires
        pos <= ts.len(),
    ensures
        match r {
            Ok((s, p)) => p_stmt(tokens_view(ts@), pos as int) == Ok::<(StmtV, int), ParseErrorV>(
                (stmt_view(s), p as int),
            ) && pos < p <= ts.len() && crate::ast::stmt_wf(stmt_view(s)),
            Err(pe) => p_stmt(tokens_view(ts@), pos as int) == Err::<(StmtV, int), ParseErrorV>(
                pe@,
            ),
        },
    decreases ts.len() - pos, 1int,
{
    proof {
        if pos < ts.len() {
            assert(tokens_view(ts@)[pos as int] == (ts@[pos as int].0@, ts@[pos as int].1));
        }
    }
    if pos < ts.len() {
        match &ts[pos].0 {
            VToken::Identifier(name) => if tok_at_is(ts, pos + 1, &VToken::Assign) {
                match parse_expr(ts, pos + 2) {
                    Ok((e, p)) => if tok_at_is(ts, p, &VToken::Semicolon) {
                        Ok((Statement::Assignment { target: name.clone(), expr: e }, p + 1))
                    } else {
                        Err(err_here(ts, p, Expected::Semicolon))
                    },
                    Err(e) => Err(e),
                }
            } else {
                Err(err_here(ts, pos + 1, Expected::Assign))
            },
            VToken::Switch => parse_switch(ts, pos),
            _ => Err(err_here(ts, pos, Expected::Statement)),
        }
    } else {
        Err(err_here(ts, pos, Expected::Statement))
    }
}

/// A switch statement; a switch with neither cases nor a default arm is
/// rejected here.
fn parse_switch(ts: &Vec<(VToken, Span)>, pos: usize) -> (r: Result<
    (Statement, usize),
    ParseError,
>)
    requires
        pos <= ts.len(),
    ensures
        match r {
            Ok((s, p)) => p_switch(tokens_view(ts@), pos as int) == Ok::<
                (StmtV, int),
                ParseErrorV,
            >((stmt_view(s), p as int)) && pos < p <= ts.len() && crate::ast::stmt_wf(
                stmt_view(s),
            ),
            Err(pe) => p_switch(tokens_view(ts@), pos as int) == Err::<(StmtV, int), ParseErrorV>(
                pe@,
            ),
        },
    decreases ts.len() - pos, 0int,
{
    if tok_at_is(ts, pos, &VToken::Switch) {
        if tok_at_is(ts, pos + 1, &VToken::LParen) {
            match parse_expr(ts, pos + 2) {
                Ok((subject, p3)) => if tok_at_is(ts, p3, &VToken::RParen) {
                    if tok_at_is(ts, p3 + 1, &VToken::LBrace) {
                        match parse_cases(ts, p3 + 2) {
                            Ok(((cases, default), p4)) => if tok_at_is(ts, p4, &VToken::RBrace) {
                                if cases.len() == 0 && default.is_none() {
                                    Err(err_here(ts, p4, Expected::CaseOrDefault))
                                } else {
                                    let default_boxed = match default {
                                        Some(d) => Some(Box::new(d)),
                                        None => None,
                                    };
                                    Ok(
                                        (
                                            Statement::Switch {
                                                switch_expr: subject,
                                                cases,
                                                default: default_boxed,
                                            },
                                            p4 + 1,
                                        ),
                                    )
                                }
                            } else {
                                Err(err_here(ts, p4, Expected::RBrace))
                            },
                            Err(e) => Err(e),
                        }
                    } else {
                        Err(err_here(ts, p3 + 1, Expected::LBrace))
                    }
                } else {
                    Err(err_here(ts, p3, Expected::RParen))
                },
                Err(e) => Err(e),
            }
        } else {
            Err(err_here(ts, pos + 1, Expected::LParen))
        }
    } else {
        Err(err_here(ts, pos, Expected::Statement))
    }
}

/// The case clauses of a switch, then an optional default arm.
fn parse_cases(ts: &Vec<(VToken, Span)>, pos: usize) -> (r: Result<
    ((Vec<(Expr, Statement)>, Option<Statement>), usize),
    ParseError,
>)
    requires
        pos <= ts.len(),
    ensures
        match r {
            Ok(((cs, df), p)) => p_cases(tokens_view(ts@), pos as int) == Ok::<
                ((Seq<(ExprV, StmtV)>, Option<StmtV>), int),
                ParseErrorV,
            >(((crate::ast::cases_view(cs@), opt_stmt_view(df)), p as int)) && pos <= p
                <= ts.len() && crate::ast::cases_view(cs@).len() == cs@.len() && (forall|i: int|
                0 <= i < cs@.len() ==> crate::ast::stmt_wf(
                    #[trigger] crate::ast::cases_view(cs@)[i].1,
                )) && (opt_stmt_view(df) matches Some(d) ==> crate::ast::stmt_wf(d)),
            Err(pe) => p_cases(tokens_view(ts@), pos as int) == Err::<
                ((Seq<(ExprV, StmtV)>, Option<StmtV>), int),
                ParseErrorV,
            >(pe@),
        },
    decreases ts.len() - pos, 2int,
{
    if tok_at_is(ts, pos, &VToken::Case) {
        match parse_expr(ts, pos + 1) {
            Ok((label, p1)) => if tok_at_is(ts, p1, &VToken::Colon) {
                match parse_stmt(ts, p1 + 1) {
                    Ok((body, p2)) => match parse_cases(ts, p2) {
                        Ok(((mut cs, df), p3)) => {
                            let ghost old_cs = cs@;
                            cs.insert(0, (label, body));
                            proof {
                                assert(cs@ =~= seq![(label, body)].add(old_cs));
                                crate::ast::lemma_cases_view_prepend((label, body), old_cs);
                                crate::ast::lemma_cases_view_index(cs@);
                                crate::ast::lemma_cases_view_index(old_cs);
                            }
                            Ok(((cs, df), p3))
                        },
                        Err(e) => Err(e),
                    },
                    Err(e) => Err(e),
                }
            } else {
                Err(err_here(ts, p1, Expected::Colon))
            },
            Err(e) => Err(e),
        }
    } else if tok_at_is(ts, pos, &VToken::Default) {
        if tok_at_is(ts, pos + 1, &VToken::Colon) {
            match parse_stmt(ts, pos + 2) {
                Ok((body, p2)) => {
                    proof {
                        assert(crate::ast::cases_view(Seq::<(Expr, Statement)>::empty())
                            =~= Seq::<(ExprV, StmtV)>::empty());
                    }
                    Ok(((Vec::new(), Some(body)), p2))
                },
                Err(e) => Err(e),
            }
        } else {
            Err(err_here(ts, pos + 1, Expected::Colon))
        }
    } else {
        proof {
            assert(crate::ast::cases_view(Seq::<(Expr, Statement)>::empty()) =~= Seq::<
                (ExprV, StmtV),
            >::empty());
        }
        Ok(((Vec::new(), None), pos))
    }
}

/// The statement list of a combinatorial block.
fn parse_stmts(ts: &Vec<(VToken, Span)>, pos: usize) -> (r: Result<
    (Vec<Statement>, usize),
    ParseError,
>)
    requires
        pos <= ts.len(),
    ensures
        match r {
            Ok((ss, p)) => p_stmts(tokens_view(ts@), pos as int) == Ok::<
                (Seq<StmtV>, int),
                ParseErrorV,
            >((crate::ast::stmts_view(ss@), p as int)) && pos <= p <= ts.len()
                && crate::ast::stmts_view(ss@).len() == ss@.len() && (forall|i: int|
                0 <= i < ss@.len() ==> crate::ast::stmt_wf(
                    #[trigger] crate::ast::stmts_view(ss@)[i],
                )),
            Err(pe) => p_stmts(tokens_view(ts@), pos as int) == Err::<
                (Seq<StmtV>, int),
                ParseErrorV,
            >(pe@),
        },
    decreases ts.len() - pos,
{
    proof {
        if pos < ts.len() {
            assert(tokens_view(ts@)[pos as int] == (ts@[pos as int].0@, ts@[pos as int].1));
        }
    }
    if pos < ts.len() && !tok_at_is(ts, pos, &VToken::RBrace) {
        match parse_stmt(ts, pos) {
            Ok((s, p)) => match parse_stmts(ts, p) {
                Ok((mut ss, p2)) => {
                    let ghost old_ss = ss@;
                    ss.insert(0, s);
                    proof {
                        assert(ss@ =~= seq![s].add(old_ss));
                        crate::ast::lemma_stmts_view_prepend(s, old_ss);
                        crate::ast::lemma_stmts_view_index(ss@);
                        crate::ast::lemma_stmts_view_index(old_ss);
                    }
                    Ok((ss, p2))
                },
                Err(e) => Err(e),
            },
            Err(e) => Err(e),
        }
    } else {
        proof {
            assert(crate::ast::stmts_view(Seq::<Statement>::empty()) =~= Seq::<StmtV>::empty());
        }
        Ok((Vec::new(), pos))
    }
}

/// The case clauses of a `gen if` body.
fn parse_gen_cases(ts: &Vec<(VToken, Span)>, pos: usize) -> (r: Result<
    (Vec<(Expr, Statement)>, usize),
    ParseError,
>)
    requires
        pos <= ts.len(),
    ensures
        match r {
            Ok((cs, p)) => p_gen_cases(tokens_view(ts@), pos as int) == Ok::<
                (Seq<(ExprV, StmtV)>, int),
                ParseErrorV,
            >((crate::ast::cases_view(cs@), p as int)) && pos <= p <= ts.len()
                && crate::ast::cases_view(cs@).len() == cs@.len() && (forall|i: int|
                0 <= i < cs@.len() ==> crate::ast::stmt_wf(
                    #[trigger] crate::ast::cases_view(cs@)[i].1,
                )),
            Err(pe) => p_gen_cases(tokens_view(ts@), pos as int) == Err::<
                (Seq<(ExprV, StmtV)>, int),
                ParseErrorV,
            >(pe@),
        },
    decreases ts.len() - pos,
{
    if tok_at_is(ts, pos, &VToken::Case) {
        match parse_expr(ts, pos + 1) {
            Ok((label, p1)) => if tok_at_is(ts, p1, &VToken::Colon) {
                match parse_stmt(ts, p1 + 1) {
                    Ok((body, p2)) => match parse_gen_cases(ts, p2) {
                        Ok((mut cs, p3)) => {
                            let ghost old_cs = cs@;
                            cs.insert(0, (label, body));
                            proof {
                                assert(cs@ =~= seq![(label, body)].add(old_cs));
                                crate::ast::lemma_cases_view_prepend((label, body), old_cs);
                                crate::ast::lemma_cases_view_index(cs@);
                                crate::ast::lemma_cases_view_index(old_cs);
                            }
                            Ok((cs, p3))
                        },
                        Err(e) => Err(e),
                    },
                    Err(e) => Err(e),
                }
            } else {
                Err(err_here(ts, p1, Expected::Colon))
            },
            Err(e) => Err(e),
        }
    } else {
        proof {
            assert(crate::ast::cases_view(Seq::<(Expr, Statement)>::empty()) =~= Seq::<
                (ExprV, StmtV),
            >::empty());
        }
        Ok((Vec::new(), pos))
    }
}

/// A port declaration.
fn parse_port(ts: &Vec<(VToken, Span)>, pos: usize) -> (r: Result<
    (Declaration, usize),
    ParseError,
>)
    requires
        pos <= ts.len(),
    ensures
        match r {
            Ok((d, p)) => p_port(tokens_view(ts@), pos as int) == Ok::<(DeclV, int), ParseErrorV>(
                (decl_view(d), p as int),
            ) && pos < p <= ts.len() && crate::ast::decl_wf(decl_view(d)),
            Err(pe) => p_port(tokens_view(ts@), pos as int) == Err::<(DeclV, int), ParseErrorV>(
                pe@,
            ),
        },
{
    if !tok_at_is(ts, pos, &VToken::Port) {
        return Err(err_here(ts, pos, Expected::Declaration));
    }
    let p1 = pos + 1;
    let direction = if tok_at_is(ts, p1, &VToken::Input) {
        PortDirection::Input
    } else if tok_at_is(ts, p1, &VToken::Output) {
        PortDirection::Output
    } else {
        return Err(err_here(ts, p1, Expected::Direction));
    };
    let p2 = p1 + 1;
    let is_reg = tok_at_is(ts, p2, &VToken::Reg);
    let p3 = if is_reg {
        p2 + 1
    } else {
        p2
    };
    proof {
        if p3 < ts.len() {
            assert(tokens_view(ts@)[p3 as int] == (ts@[p3 as int].0@, ts@[p3 as int].1));
        }
    }
    if p3 >= ts.len() {
        return Err(err_here(ts, p3, Expected::Ident));
    }
    let name: String = match &ts[p3].0 {
        VToken::Identifier(s) => s.clone(),
        _ => {
            return Err(err_here(ts, p3, Expected::Ident));
        },
    };
    let p4 = p3 + 1;
    if tok_at_is(ts, p4, &VToken::LBracket) {
        let p5 = p4 + 1;
        proof {
            if p5 < ts.len() {
                assert(tokens_view(ts@)[p5 as int] == (ts@[p5 as int].0@, ts@[p5 as int].1));
            }
        }
        if p5 >= ts.len() {
            return Err(err_here(ts, p5, Expected::Width));
        }
        let w: i64 = match &ts[p5].0 {
            VToken::Integer(v) => *v,
            _ => {
                return Err(err_here(ts, p5, Expected::Width));
            },
        };
        if !(1 <= w && w <= u32::MAX as i64) {
            return Err(err_here(ts, p5, Expected::Width));
        }
        let p6 = p5 + 1;
        if !tok_at_is(ts, p6, &VToken::RBracket) {
            return Err(err_here(ts, p6, Expected::RBracket));
        }
        let p7 = p6 + 1;
        if !tok_at_is(ts, p7, &VToken::Semicolon) {
            return Err(err_here(ts, p7, Expected::Semicolon));
        }
        Ok((Declaration::Port { direction, is_reg, name, width: w as u32 }, p7 + 1))
    } else if tok_at_is(ts, p4, &VToken::Semicolon) {
        Ok((Declaration::Port { direction, is_reg, name, width: 1 }, p4 + 1))
    } else {
        Err(err_here(ts, p4, Expected::Semicolon))
    }
}

/// A combinatorial block declaration.
fn parse_comb(ts: &Vec<(VToken, Span)>, pos: usize) -> (r: Result<
    (Declaration, usize),
    ParseError,
>)
    requires
        pos <= ts.len(),
    ensures
        match r {
            Ok((d, p)) => p_comb(tokens_view(ts@), pos as int) == Ok::<(DeclV, int), ParseErrorV>(
                (decl_view(d), p as int),
            ) && pos < p <= ts.len() && crate::ast::decl_wf(decl_view(d)),
            Err(pe) => p_comb(tokens_view(ts@), pos as int) == Err::<(DeclV, int), ParseErrorV>(
                pe@,
            ),
        },
{
    if !tok_at_is(ts, pos, &VToken::Combinatorial) {
        return Err(err_here(ts, pos, Expected::Declaration));
    }
    if !tok_at_is(ts, pos + 1, &VToken::LBrace) {
        return Err(err_here(ts, pos + 1, Expected::LBrace));
    }
    match parse_stmts(ts, pos + 2) {
        Ok((stmts, p)) => if tok_at_is(ts, p, &VToken::RBrace) {
            Ok((Declaration::Combinatorial(stmts), p + 1))
        } else {
            Err(err_here(ts, p, Expected::RBrace))
        },
        Err(e) => Err(e),
    }
}

/// A `gen if` declaration.
#[verifier::rlimit(60)]
fn parse_genif(ts: &Vec<(VToken, Span)>, pos: usize) -> (r: Result<
    (Declaration, usize),
    ParseError,
>)
    requires
        pos <= ts.len(),
    ensures
        match r {
            Ok((d, p)) => p_genif(tokens_view(ts@), pos as int) == Ok::<(DeclV, int), ParseErrorV>(
                (decl_view(d), p as int),
            ) && pos < p <= ts.len() && crate::ast::decl_wf(decl_view(d)),
            Err(pe) => p_genif(tokens_view(ts@), pos as int) == Err::<(DeclV, int), ParseErrorV>(
                pe@,
            ),
        },
{
    if !tok_at_is(ts, pos, &VToken::Gen) {
        return Err(err_here(ts, pos, Expected::Declaration));
    }
    if !tok_at_is(ts, pos + 1, &VToken::If) {
        return Err(err_here(ts, pos + 1, Expected::IfKw));
    }
    if !tok_at_is(ts, pos + 2, &VToken::LParen) {
        return Err(err_here(ts, pos + 2, Expected::LParen));
    }
    let p3 = pos + 3;
    proof {
        if p3 < ts.len() {
            assert(tokens_view(ts@)[p3 as int] == (ts@[p3 as int].0@, ts@[p3 as int].1));
        }
    }
    if p3 >= ts.len() {
        return Err(err_here(ts, p3, Expected::Ident));
    }
    let condition: String = match &ts[p3].0 {
        VToken::Identifier(s) => if s.as_str().is_empty() {
            return Err(err_here(ts, p3, Expected::Ident));
        } else {
            s.clone()
        },
        _ => {
            return Err(err_here(ts, p3, Expected::Ident));
        },
    };
    if !tok_at_is(ts, pos + 4, &VToken::RParen) {
        return Err(err_here(ts, pos + 4, Expected::RParen));
    }
    if !tok_at_is(ts, pos + 5, &VToken::LBrace) {
        return Err(err_here(ts, pos + 5, Expected::LBrace));
    }
    match parse_gen_cases(ts, pos + 6) {
        Ok((cases, p)) => if tok_at_is(ts, p, &VToken::RBrace) {
            let declarations: Vec<Declaration> = if cases.len() == 0 {
                proof {
                    assert(crate::ast::decls_view(Seq::<Declaration>::empty()) =~= Seq::<
                        DeclV,
                    >::empty());
                }
                Vec::new()
            } else {
                let ghost cs_seq = cases@;
                let switch = Statement::Switch {
                    switch_expr: Expr::Identifier(String::new()),
                    cases,
                    default: None,
                };
                let ghost switch_v = stmt_view(switch);
                proof {
                    assert(switch_v == (StmtV::Switch {
                        switch_expr: placeholder_expr(),
                        cases: crate::ast::cases_view(cs_seq),
                        default: None,
                    }));
                    assert(crate::ast::stmt_wf(switch_v));
                }
                let mut stmts: Vec<Statement> = Vec::new();
                stmts.push(switch);
                let ghost stmts_seq = stmts@;
                let comb = Declaration::Combinatorial(stmts);
                let ghost comb_v = decl_view(comb);
                let mut ds: Vec<Declaration> = Vec::new();
                ds.push(comb);
                proof {
                    crate::ast::lemma_stmts_view_index(stmts_seq);
                    assert(crate::ast::stmts_view(stmts_seq) =~= seq![switch_v]);
                    assert(crate::ast::decl_wf(comb_v)) by {
                        assert(comb_v == DeclV::Combinatorial(seq![switch_v]));
                        assert(forall|i: int|
                            0 <= i < seq![switch_v].len() ==> crate::ast::stmt_wf(
                                #[trigger] seq![switch_v][i],
                            ));
                    }
                    crate::ast::lemma_decls_view_index(ds@);
                    assert(crate::ast::decls_view(ds@) =~= seq![comb_v]);
                    assert(forall|i: int|
                        0 <= i < crate::ast::decls_view(ds@).len() ==> crate::ast::decl_wf(
                            #[trigger] crate::ast::decls_view(ds@)[i],
                        ));
                }
                ds
            };
            Ok((Declaration::ConditionalBlock { condition, declarations }, p + 1))
        } else {
            Err(err_here(ts, p, Expected::RBrace))
        },
        Err(e) => Err(e),
    }
}

/// One declaration, dispatched on its leading keyword.
fn parse_decl(ts: &Vec<(VToken, Span)>, pos: usize) -> (r: Result<
    (Declaration, usize),
    ParseError,
>)
    requires
        pos <= ts.len(),
    ensures
        match r {
            Ok((d, p)) => p_decl(tokens_view(ts@), pos as int) == Ok::<(DeclV, int), ParseErrorV>(
                (decl_view(d), p as int),
            ) && pos < p <= ts.len() && crate::ast::decl_wf(decl_view(d)),
            Err(pe) => p_decl(tokens_view(ts@), pos as int) == Err::<(DeclV, int), ParseErrorV>(
                pe@,
            ),
        },
{
    proof {
        if pos < ts.len() {
            assert(tokens_view(ts@)[pos as int] == (ts@[pos as int].0@, ts@[pos as int].1));
        }
    }
    if pos < ts.len() {
        match &ts[pos].0 {
            VToken::Port => parse_port(ts, pos),
            VToken::Combinatorial => parse_comb(ts, pos),
            VToken::Gen => parse_genif(ts, pos),
            _ => Err(err_here(ts, pos, Expected::Declaration)),
        }
    } else {
        Err(err_here(ts, pos, Expected::Declaration))
    }
}

/// The declaration list of a module body.
#[verifier::rlimit(60)]
fn parse_decls(ts: &Vec<(VToken, Span)>, pos: usize) -> (r: Result<
    (Vec<Declaration>, usize),
    ParseError,
>)
    requires
        pos <= ts.len(),
    ensures
        match r {
            Ok((ds, p)) => p_decls(tokens_view(ts@), pos as int) == Ok::<
                (Seq<DeclV>, int),
                ParseErrorV,
            >((crate::ast::decls_view(ds@), p as int)) && pos <= p <= ts.len()
                && crate::ast::decls_view(ds@).len() == ds@.len() && (forall|i: int|
                0 <= i < ds@.len() ==> crate::ast::decl_wf(
                    #[trigger] crate::ast::decls_view(ds@)[i],
                )),
            Err(pe) => p_decls(tokens_view(ts@), pos as int) == Err::<
                (Seq<DeclV>, int),
                ParseErrorV,
            >(pe@),
        },
    decreases ts.len() - pos,
{
    proof {
        if pos < ts.len() {
            assert(tokens_view(ts@)[pos as int] == (ts@[pos as int].0@, ts@[pos as int].1));
        }
    }
    if pos < ts.len() && !tok_at_is(ts, pos, &VToken::RBrace) {
        match parse_decl(ts, pos) {
            Ok((d, p)) => match parse_decls(ts, p) {
                Ok((mut ds, p2)) => {
                    let ghost old_ds = ds@;
                    ds.insert(0, d);
                    proof {
                        assert(ds@ =~= seq![d].add(old_ds));
                        crate::ast::lemma_decls_view_prepend(d, old_ds);
                        crate::ast::lemma_decls_view_index(ds@);
                        crate::ast::lemma_decls_view_index(old_ds);
                    }
                    Ok((ds, p2))
                },
                Err(e) => Err(e),
            },
            Err(e) => Err(e),
        }
    } else {
        proof {
            assert(crate::ast::decls_view(Seq::<Declaration>::empty()) =~= Seq::<DeclV>::empty());
        }
        Ok((Vec::new(), pos))
    }
}

/// Syntactic analysis of a whole token sequence: on success the module and
/// no errors; on the first grammar mismatch no module and exactly that one
/// error.  Every returned tree satisfies [`module_wf`], so a switch with
/// neither cases nor a default arm can never be produced.
pub fn parse(tokens: &Vec<(VToken, Span)>) -> (r: (Option<Module>, Vec<ParseError>))
    ensures
        match spec_parse(tokens_view(tokens@)) {
            Ok(mv) => {
                &&& r.0 matches Some(m) && m@ == mv
                &&& module_wf(mv)
                &&& r.1@.len() == 0
            },
            Err(e) => {
                &&& r.0 is None
                &&& r.1@.len() == 1
                &&& r.1@[0]@ == e
            },
        },
{
    proof {
        if 1 < tokens.len() {
            assert(tokens_view(tokens@)[1] == (tokens@[1].0@, tokens@[1].1));
        }
    }
    if !tok_at_is(tokens, 0, &VToken::Module) {
        let e = err_here(tokens, 0, Expected::ModuleKw);
        let mut v: Vec<ParseError> = Vec::new();
        v.push(e);
        return (None, v);
    }
    if tokens.len() <= 1 {
        let e = err_here(tokens, 1, Expected::Ident);
        let mut v: Vec<ParseError> = Vec::new();
        v.push(e);
        return (None, v);
    }
    let name: String = match &tokens[1].0 {
        VToken::Identifier(s) => s.clone(),
        _ => {
            let e = err_here(tokens, 1, Expected::Ident);
            let mut v: Vec<ParseError> = Vec::new();
            v.push(e);
            return (None, v);
        },
    };
    if !tok_at_is(tokens, 2, &VToken::LBrace) {
        let e = err_here(tokens, 2, Expected::LBrace);
        let mut v: Vec<ParseError> = Vec::new();
        v.push(e);
        return (None, v);
    }
    match parse_decls(tokens, 3) {
        Ok((declarations, p)) => {
            if !tok_at_is(tokens, p, &VToken::RBrace) {
                let e = err_here(tokens, p, Expected::RBrace);
                let mut v: Vec<ParseError> = Vec::new();
                v.push(e);
                return (None, v);
            }
            if p + 1 != tokens.len() {
                let e = err_here(tokens, p + 1, Expected::Eof);
                let mut v: Vec<ParseError> = Vec::new();
                v.push(e);
                return (None, v);
            }
            (Some(Module { name, declarations }), Vec::new())
        },
        Err(e) => {
            let mut v: Vec<ParseError> = Vec::new();
            v.push(e);
            (None, v)
        },
    }
}

} // verus!
