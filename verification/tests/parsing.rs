use veriscript::ast::{Declaration, Expr, Module, Op, PortDirection, Statement};
use veriscript::lexer::tokenize;
use veriscript::parser::{parse, Expected};

fn parse_src(src: &str) -> (Option<Module>, Vec<veriscript::parser::ParseError>) {
    let (toks, errs) = tokenize(src);
    assert!(errs.is_empty(), "unexpected lex errors");
    parse(&toks)
}

#[test]
fn round_trip_module_structure() {
    let src = "module m { port input clk [1]; port output reg q [1]; combinatorial { q = clk; } }";
    let (m, errs) = parse_src(src);
    assert!(errs.is_empty());
    let m = m.expect("expected a module");
    assert_eq!(m.name, "m");
    assert_eq!(m.declarations.len(), 3);
    match &m.declarations[0] {
        Declaration::Port { direction, is_reg, name, width } => {
            assert!(matches!(direction, PortDirection::Input));
            assert!(!is_reg);
            assert_eq!(name, "clk");
            assert_eq!(*width, 1);
        },
        other => panic!("expected a port, got {:?}", other),
    }
    match &m.declarations[1] {
        Declaration::Port { direction, is_reg, name, width } => {
            assert!(matches!(direction, PortDirection::Output));
            assert!(*is_reg);
            assert_eq!(name, "q");
            assert_eq!(*width, 1);
        },
        other => panic!("expected a port, got {:?}", other),
    }
    match &m.declarations[2] {
        Declaration::Combinatorial(stmts) => {
            assert_eq!(stmts.len(), 1);
            match &stmts[0] {
                Statement::Assignment { target, expr } => {
                    assert_eq!(target, "q");
                    assert!(matches!(expr, Expr::Identifier(s) if s == "clk"));
                },
                other => panic!("expected an assignment, got {:?}", other),
            }
        },
        other => panic!("expected a combinatorial block, got {:?}", other),
    }
}

#[test]
fn binary_expression_is_left_associative() {
    let (m, errs) = parse_src("module m { combinatorial { x = a + b & c; } }");
    assert!(errs.is_empty());
    let m = m.unwrap();
    let stmts = match &m.declarations[0] {
        Declaration::Combinatorial(stmts) => stmts,
        other => panic!("expected a combinatorial block, got {:?}", other),
    };
    let expr = match &stmts[0] {
        Statement::Assignment { expr, .. } => expr,
        other => panic!("expected an assignment, got {:?}", other),
    };
    // (a + b) & c, never a + (b & c)
    match expr {
        Expr::BinaryOp(left, Op::BitAnd, right) => {
            assert!(matches!(&**right, Expr::Identifier(s) if s == "c"));
            match &**left {
                Expr::BinaryOp(ll, Op::Plus, lr) => {
                    assert!(matches!(&**ll, Expr::Identifier(s) if s == "a"));
                    assert!(matches!(&**lr, Expr::Identifier(s) if s == "b"));
                },
                other => panic!("expected a + b on the left, got {:?}", other),
            }
        },
        other => panic!("expected & at the top, got {:?}", other),
    }
}

#[test]
fn empty_switch_is_rejected() {
    let (m, errs) = parse_src("module m { combinatorial { switch (x) { } } }");
    assert!(m.is_none());
    assert_eq!(errs.len(), 1);
    assert_eq!(errs[0].expected, Expected::CaseOrDefault);
}

#[test]
fn switch_with_only_default_is_accepted() {
    let (m, errs) = parse_src("module m { combinatorial { switch (x) { default: y = a; } } }");
    assert!(errs.is_empty());
    let m = m.unwrap();
    let stmts = match &m.declarations[0] {
        Declaration::Combinatorial(stmts) => stmts,
        other => panic!("expected a combinatorial block, got {:?}", other),
    };
    match &stmts[0] {
        Statement::Switch { cases, default, .. } => {
            assert!(cases.is_empty());
            assert!(default.is_some());
        },
        other => panic!("expected a switch, got {:?}", other),
    }
}

#[test]
fn gen_if_produces_a_conditional_block_with_one_switch() {
    let (m, errs) = parse_src("module m { gen if (FLAG) { case X: q = a; } }");
    assert!(errs.is_empty());
    let m = m.unwrap();
    assert_eq!(m.declarations.len(), 1);
    let (condition, declarations) = match &m.declarations[0] {
        Declaration::ConditionalBlock { condition, declarations } => (condition, declarations),
        other => panic!("expected a conditional block, got {:?}", other),
    };
    assert_eq!(condition, "FLAG");
    assert_eq!(declarations.len(), 1);
    let stmts = match &declarations[0] {
        Declaration::Combinatorial(stmts) => stmts,
        other => panic!("expected a combinatorial block, got {:?}", other),
    };
    assert_eq!(stmts.len(), 1);
    match &stmts[0] {
        Statement::Switch { switch_expr, cases, default } => {
            // the switch subject is the neutral placeholder
            assert!(matches!(switch_expr, Expr::Identifier(s) if s.is_empty()));
            assert!(default.is_none());
            assert_eq!(cases.len(), 1);
            assert!(matches!(&cases[0].0, Expr::Identifier(s) if s == "X"));
            match &cases[0].1 {
                Statement::Assignment { target, expr } => {
                    assert_eq!(target, "q");
                    assert!(matches!(expr, Expr::Identifier(s) if s == "a"));
                },
                other => panic!("expected an assignment, got {:?}", other),
            }
        },
        other => panic!("expected a switch, got {:?}", other),
    }
}

#[test]
fn gen_if_with_no_cases_is_an_empty_conditional_block() {
    let (m, errs) = parse_src("module m { gen if (FLAG) { } }");
    assert!(errs.is_empty());
    let m = m.unwrap();
    match &m.declarations[0] {
        Declaration::ConditionalBlock { condition, declarations } => {
            assert_eq!(condition, "FLAG");
            assert!(declarations.is_empty());
        },
        other => panic!("expected a conditional block, got {:?}", other),
    }
}

#[test]
fn port_width_defaults_to_one() {
    let (m, errs) = parse_src("module m { port input c; }");
    assert!(errs.is_empty());
    let m = m.unwrap();
    match &m.declarations[0] {
        Declaration::Port { width, .. } => assert_eq!(*width, 1),
        other => panic!("expected a port, got {:?}", other),
    }
}

#[test]
fn zero_width_port_is_rejected() {
    let (m, errs) = parse_src("module m { port input c [0]; }");
    assert!(m.is_none());
    assert_eq!(errs.len(), 1);
    assert_eq!(errs[0].expected, Expected::Width);
}

#[test]
fn trailing_tokens_after_module_are_rejected() {
    let (m, errs) = parse_src("module m { } x");
    assert!(m.is_none());
    assert_eq!(errs.len(), 1);
    assert_eq!(errs[0].expected, Expected::Eof);
}

#[test]
fn missing_semicolon_is_reported_with_its_span() {
    let src = "module m { combinatorial { x = a } }";
    let (toks, lex_errs) = tokenize(src);
    assert!(lex_errs.is_empty());
    let (m, errs) = parse(&toks);
    assert!(m.is_none());
    assert_eq!(errs.len(), 1);
    assert_eq!(errs[0].expected, Expected::Semicolon);
    // the error points at the `}` that stands where `;` was expected
    assert_eq!(&src[errs[0].span.start..errs[0].span.end], "}");
}

#[test]
fn error_at_end_of_input_has_an_empty_span_past_the_last_token() {
    let (m, errs) = parse_src("module m {");
    assert!(m.is_none());
    assert_eq!(errs.len(), 1);
    assert_eq!(errs[0].found, None);
    assert_eq!(errs[0].span.start, 10);
    assert_eq!(errs[0].span.end, 10);
}

#[test]
fn nested_switches_parse() {
    let (m, errs) = parse_src(
        "module m { combinatorial { switch (x) { case a: switch (y) { default: z = b; } } } }",
    );
    assert!(errs.is_empty());
    let m = m.unwrap();
    let stmts = match &m.declarations[0] {
        Declaration::Combinatorial(stmts) => stmts,
        other => panic!("expected a combinatorial block, got {:?}", other),
    };
    match &stmts[0] {
        Statement::Switch { cases, .. } => {
            assert_eq!(cases.len(), 1);
            assert!(matches!(&cases[0].1, Statement::Switch { .. }));
        },
        other => panic!("expected a switch, got {:?}", other),
    }
}

#[test]
fn identifier_without_assign_is_rejected() {
    let (m, errs) = parse_src("module m { combinatorial { x ; } }");
    assert!(m.is_none());
    assert_eq!(errs.len(), 1);
    assert_eq!(errs[0].expected, Expected::Assign);
}

#[test]
fn port_without_direction_is_rejected() {
    let (m, errs) = parse_src("module m { port up c; }");
    assert!(m.is_none());
    assert_eq!(errs.len(), 1);
    assert_eq!(errs[0].expected, Expected::Direction);
}

#[test]
fn gen_without_if_is_rejected() {
    let (m, errs) = parse_src("module m { gen x }");
    assert!(m.is_none());
    assert_eq!(errs.len(), 1);
    assert_eq!(errs[0].expected, Expected::IfKw);
}

#[test]
fn width_beyond_32_bits_is_rejected() {
    let (m, errs) = parse_src("module m { port input c [4294967296]; }");
    assert!(m.is_none());
    assert_eq!(errs.len(), 1);
    assert_eq!(errs[0].expected, Expected::Width);
}
