//! Compiler front-end for a small hardware-description language, together
//! with a Verilog-emitting back-end.
//!
//! The pipeline is: source text -> lexer -> token sequence -> parser -> AST
//! -> code generator -> Verilog text.  Every stage is total and is verified
//! against a mathematical model of itself: `tokenize` returns exactly the
//! tokens of the spec-level lexer, `parse` returns exactly the result of the
//! spec-level recursive-descent parser, and `CodeGenerator::generate` emits
//! exactly the text of the spec-level renderer.  I/O and diagnostic
//! presentation live outside this crate; it works on plain text in and
//! plain text out.

use vstd::prelude::*;

pub mod ast;
pub mod codegen;
pub mod lexer;
pub mod parser;
pub mod token;

use crate::ast::module_wf;
use crate::codegen::{render_module, CodeGenerator};
use crate::lexer::{spec_tokenize, tokenize};
use crate::parser::{parse, spec_parse, ParseError, ParseErrorV};
use crate::token::{LexError, Span};

verus! {

/// One diagnostic of the pipeline, with its severity: a lexical error
/// from the scanner or a syntax error from the parser.  Each carries the
/// span of the offending source text.
#[derive(Debug)]
pub enum Diagnostic {
    Lexical(LexError),
    Syntactic(ParseError),
}

/// The mathematical value of a [`Diagnostic`].
pub enum DiagnosticV {
    Lexical(LexError),
    Syntactic(ParseErrorV),
}

impl View for Diagnostic {
    type V = DiagnosticV;

    open spec fn view(&self) -> DiagnosticV {
        match self {
            Diagnostic::Lexical(e) => DiagnosticV::Lexical(*e),
            Diagnostic::Syntactic(e) => DiagnosticV::Syntactic(e@),
        }
    }
}

impl Diagnostic {
    /// The source span this diagnostic points at.
    pub fn span(&self) -> (sp: Span)
        ensures
            sp == diag_span(self@),
    {
        match self {
            Diagnostic::Lexical(e) => e.span,
            Diagnostic::Syntactic(e) => e.span,
        }
    }
}

/// The span of a diagnostic.
pub open spec fn diag_span(d: DiagnosticV) -> Span {
    match d {
        DiagnosticV::Lexical(e) => e.span,
        DiagnosticV::Syntactic(e) => e.span,
    }
}

/// The mathematical result of the whole pipeline on a source text: the
/// Verilog text, or the ordered, non-empty diagnostic list — every
/// lexical error first, then the syntax error if parsing failed too.
/// Verilog is produced only for a source with no diagnostic at all.
pub open spec fn spec_compile(s: Seq<char>) -> Result<Seq<char>, Seq<DiagnosticV>> {
    let (toks, lex_errs) = spec_tokenize(s);
    let parsed = spec_parse(toks);
    if lex_errs.len() == 0 {
        match parsed {
            Ok(m) => Ok(render_module(m)),
            Err(e) => Err(seq![DiagnosticV::Syntactic(e)]),
        }
    } else {
        Err(
            lex_errs.map(|i: int, e: LexError| DiagnosticV::Lexical(e)).add(
                match parsed {
                    Ok(m) => Seq::empty(),
                    Err(e) => seq![DiagnosticV::Syntactic(e)],
                },
            ),
        )
    }
}

/// The whole pipeline: lexical analysis, parsing and code generation over
/// one source text.  Total: it always returns, with the Verilog text
/// exactly when the source carries no diagnostic, and otherwise with the
/// non-empty diagnostic list; either way the result equals the spec-level
/// pipeline [`spec_compile`] of the text, a function of the text alone.
pub fn compile(src: &str) -> (r: Result<String, Vec<Diagnostic>>)
    ensures
        match r {
            Ok(text) => spec_compile(src@) == Ok::<Seq<char>, Seq<DiagnosticV>>(text@),
            Err(ds) => {
                &&& spec_compile(src@) matches Err(dv)
                &&& ds@.len() == dv.len()
                &&& ds@.len() > 0
                &&& forall|i: int| 0 <= i < ds@.len() ==> ds@[i]@ == dv[i]
            },
        },
{
    let (toks, lex_errs) = tokenize(src);
    let (module_opt, mut parse_errs) = parse(&toks);
    if lex_errs.len() == 0 {
        match module_opt {
            Some(m) => {
                let mut g = CodeGenerator::new();
                g.generate(&m);
                proof {
                    assert(Seq::<char>::empty().add(render_module(m@)) =~= render_module(m@));
                }
                Ok(g.get_output().to_owned())
            },
            None => {
                let e = parse_errs.remove(0);
                let mut v: Vec<Diagnostic> = Vec::new();
                v.push(Diagnostic::Syntactic(e));
                Err(v)
            },
        }
    } else {
        let ghost lex_diags = lex_errs@.map(|i: int, e: LexError| DiagnosticV::Lexical(e));
        let mut v: Vec<Diagnostic> = Vec::new();
        let mut i: usize = 0;
        while i < lex_errs.len()
            invariant
                i <= lex_errs.len(),
                lex_diags == lex_errs@.map(|k: int, e: LexError| DiagnosticV::Lexical(e)),
                v@.len() == i,
                forall|k: int| 0 <= k < i ==> v@[k]@ == lex_diags[k],
            decreases lex_errs.len() - i,
        {
            v.push(Diagnostic::Lexical(lex_errs[i]));
            i = i + 1;
        }
        match module_opt {
            Some(m) => {
                proof {
                    assert(lex_diags.add(Seq::<DiagnosticV>::empty()) =~= lex_diags);
                    assert(spec_compile(src@) matches Err(dv) && dv == lex_diags);
                }
                Err(v)
            },
            None => {
                let e = parse_errs.remove(0);
                let ghost pre = v@;
                v.push(Diagnostic::Syntactic(e));
                proof {
                    let dv = lex_diags.add(seq![DiagnosticV::Syntactic(e@)]);
                    assert(spec_compile(src@) matches Err(d) && d == dv);
                    assert(v@.len() == dv.len());
                    assert(forall|k: int| 0 <= k < pre.len() ==> v@[k]@ == dv[k]);
                    assert(v@[pre.len() as int]@ == dv[pre.len() as int]);
                }
                Err(v)
            },
        }
    }
}

/// The pipeline is deterministic.  [`compile`] is bound by its contract to
/// return exactly `spec_compile` of its input text, a mathematical
/// function, so two runs on identical source yield byte-identical Verilog
/// (or identical diagnostics); this lemma states that the spec-level
/// pipeline cannot distinguish two equal inputs.
pub proof fn lemma_compile_deterministic(s1: Seq<char>, s2: Seq<char>)
    requires
        s1 == s2,
    ensures
        spec_compile(s1) == spec_compile(s2),
{
}

} // verus!
