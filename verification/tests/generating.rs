use veriscript::codegen::CodeGenerator;
use veriscript::lexer::tokenize;
use veriscript::parser::parse;
use veriscript::Diagnostic;

fn compile_ok(src: &str) -> String {
    veriscript::compile(src).expect("expected Verilog output")
}

#[test]
fn round_trip_verilog_output() {
    let out = compile_ok(
        "module m { port input clk [1]; port output reg q [1]; combinatorial { q = clk; } }",
    );
    assert_eq!(
        out,
        "module m;\n    input clk;\n    output reg q;\n    always @* begin\n        q = clk;\n    end\nendmodule\n"
    );
    assert!(out.contains("input clk;"));
    assert!(out.contains("output reg q;"));
    assert!(out.contains("q = clk;"));
}

#[test]
fn pipeline_is_deterministic() {
    let src = "module m { port input clk [1]; port output reg q [1]; combinatorial { q = clk & clk; } }";
    let first = compile_ok(src);
    let second = compile_ok(src);
    assert_eq!(first, second);
}

#[test]
fn wide_port_gets_a_bracket() {
    let out = compile_ok("module m { port input d [8]; port output w [32]; }");
    assert!(out.contains("    input [7:0] d;\n"));
    assert!(out.contains("    output [31:0] w;\n"));
}

#[test]
fn implicit_wire_for_undeclared_target() {
    let out = compile_ok("module m { port input a [1]; combinatorial { t = a; t = t + a; } }");
    // `t` is not a port: declared implicitly, once; `a` is a port: not re-declared
    assert_eq!(out.matches("wire t;").count(), 1);
    assert!(!out.contains("wire a;"));
    let wire_at = out.find("    wire t;\n").expect("wire line expected");
    let always_at = out.find("    always @* begin\n").expect("always line expected");
    assert!(wire_at < always_at);
}

#[test]
fn switch_renders_as_a_case_block() {
    let out = compile_ok(
        "module m { port input s [1]; port output reg y [1]; combinatorial { switch (s) { case '1b1: y = a; default: y = b; } } }",
    );
    assert!(out.contains("        case (s)\n"));
    assert!(out.contains("            '1b1:\n"));
    assert!(out.contains("                y = a;\n"));
    assert!(out.contains("            default:\n"));
    assert!(out.contains("                y = b;\n"));
    assert!(out.contains("        endcase\n"));
}

#[test]
fn gen_if_renders_as_a_generate_block() {
    let out = compile_ok("module m { gen if (FLAG) { case X: q = a; } }");
    assert!(out.contains("    generate\n"));
    assert!(out.contains("    if (FLAG) begin\n"));
    assert!(out.contains("        wire q;\n"));
    assert!(out.contains("            case (")); // the placeholder subject renders empty
    assert!(out.contains("    end\n"));
    assert!(out.contains("    endgenerate\n"));
}

#[test]
fn expression_rendering_is_flat_and_spaced() {
    let out = compile_ok("module m { port output reg x [1]; combinatorial { x = a + b & c - d; } }");
    assert!(out.contains("x = a + b & c - d;"));
}

#[test]
fn generator_appends_across_calls() {
    let src = "module m { }";
    let (toks, lex_errs) = tokenize(src);
    assert!(lex_errs.is_empty());
    let (module, parse_errs) = parse(&toks);
    assert!(parse_errs.is_empty());
    let module = module.unwrap();
    let mut g = CodeGenerator::new();
    assert_eq!(g.get_output(), "");
    g.generate(&module);
    let once = g.get_output().to_string();
    assert_eq!(once, "module m;\nendmodule\n");
    g.generate(&module);
    assert_eq!(g.get_output(), format!("{}{}", once, once));
}

#[test]
fn compile_reports_lexical_then_syntactic_diagnostics() {
    let diags = veriscript::compile("module $ {").expect_err("expected diagnostics");
    assert_eq!(diags.len(), 2);
    match &diags[0] {
        Diagnostic::Lexical(e) => assert_eq!(e.span.start, 7),
        other => panic!("expected a lexical diagnostic first, got {:?}", other),
    }
    assert!(matches!(&diags[1], Diagnostic::Syntactic(_)));
}

#[test]
fn compile_reports_a_syntax_error_alone() {
    let diags = veriscript::compile("module m").expect_err("expected diagnostics");
    assert_eq!(diags.len(), 1);
    match &diags[0] {
        Diagnostic::Syntactic(e) => {
            assert_eq!(e.found, None);
            assert_eq!(diags[0].span().start, 8);
        },
        other => panic!("expected a syntactic diagnostic, got {:?}", other),
    }
}

#[test]
fn lexical_errors_suppress_code_generation() {
    // lexes with an error, but the tokens still parse as a module
    let diags = veriscript::compile("module m { } $").expect_err("expected diagnostics");
    assert_eq!(diags.len(), 1);
    assert!(matches!(&diags[0], Diagnostic::Lexical(_)));
}

#[test]
fn gen_if_exact_output() {
    let out = compile_ok("module m { gen if (FLAG) { case X: q = a; } }");
    let expected = "module m;\n    generate\n    if (FLAG) begin\n        wire q;\n        always @* begin\n            case ()\n                X:\n                    q = a;\n            endcase\n        end\n    end\n    endgenerate\nendmodule\n";
    assert_eq!(out, expected);
}
