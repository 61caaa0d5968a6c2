use veriscript::lexer::tokenize;
use veriscript::token::{LexErrorKind, VToken};

#[test]
fn keyword_module_is_never_an_identifier() {
    let (toks, errs) = tokenize("module");
    assert!(errs.is_empty());
    assert_eq!(toks.len(), 1);
    assert_eq!(toks[0].0, VToken::Module);
}

#[test]
fn module2_is_an_identifier() {
    let (toks, errs) = tokenize("module2");
    assert!(errs.is_empty());
    assert_eq!(toks.len(), 1);
    assert_eq!(toks[0].0, VToken::Identifier("module2".to_string()));
}

#[test]
fn all_keywords_lex_as_keywords() {
    let (toks, errs) = tokenize("module port input output reg wire combinatorial switch case default gen if");
    assert!(errs.is_empty());
    let expected = vec![
        VToken::Module,
        VToken::Port,
        VToken::Input,
        VToken::Output,
        VToken::Reg,
        VToken::Wire,
        VToken::Combinatorial,
        VToken::Switch,
        VToken::Case,
        VToken::Default,
        VToken::Gen,
        VToken::If,
    ];
    let got: Vec<VToken> = toks.into_iter().map(|(t, _)| t).collect();
    assert_eq!(got, expected);
}

#[test]
fn punctuation_and_operators() {
    let (toks, errs) = tokenize("{ } [ ] ( ) : ; = + - & | ^ <<");
    assert!(errs.is_empty());
    let expected = vec![
        VToken::LBrace,
        VToken::RBrace,
        VToken::LBracket,
        VToken::RBracket,
        VToken::LParen,
        VToken::RParen,
        VToken::Colon,
        VToken::Semicolon,
        VToken::Assign,
        VToken::Plus,
        VToken::Minus,
        VToken::BitAnd,
        VToken::BitOr,
        VToken::BitXor,
        VToken::Shl,
    ];
    let got: Vec<VToken> = toks.into_iter().map(|(t, _)| t).collect();
    assert_eq!(got, expected);
}

#[test]
fn unterminated_block_comment_is_one_error_and_nothing_fabricated() {
    let src = "module /* never closed";
    let (toks, errs) = tokenize(src);
    assert_eq!(toks.len(), 1);
    assert_eq!(toks[0].0, VToken::Module);
    assert_eq!(errs.len(), 1);
    assert_eq!(errs[0].kind, LexErrorKind::UnterminatedComment);
    assert_eq!(errs[0].span.start, 7);
    assert_eq!(errs[0].span.end, src.len());
}

#[test]
fn comments_and_whitespace_are_skipped() {
    let (toks, errs) = tokenize("a // to end of line\nb /* mid */ c");
    assert!(errs.is_empty());
    let got: Vec<VToken> = toks.into_iter().map(|(t, _)| t).collect();
    assert_eq!(
        got,
        vec![
            VToken::Identifier("a".to_string()),
            VToken::Identifier("b".to_string()),
            VToken::Identifier("c".to_string()),
        ]
    );
}

#[test]
fn unrecognized_characters_do_not_halt_the_scan() {
    let (toks, errs) = tokenize("@ a $");
    assert_eq!(toks.len(), 1);
    assert_eq!(toks[0].0, VToken::Identifier("a".to_string()));
    assert_eq!(errs.len(), 2);
    assert_eq!(errs[0].kind, LexErrorKind::UnrecognizedChar('@'));
    assert_eq!(errs[0].span.start, 0);
    assert_eq!(errs[0].span.end, 1);
    assert_eq!(errs[1].kind, LexErrorKind::UnrecognizedChar('$'));
    assert_eq!(errs[1].span.start, 4);
}

#[test]
fn integer_values_and_overflow() {
    let (toks, errs) = tokenize("0 42 9223372036854775807");
    assert!(errs.is_empty());
    let got: Vec<VToken> = toks.into_iter().map(|(t, _)| t).collect();
    assert_eq!(
        got,
        vec![VToken::Integer(0), VToken::Integer(42), VToken::Integer(9223372036854775807)]
    );

    let (toks2, errs2) = tokenize("9223372036854775808");
    assert!(toks2.is_empty());
    assert_eq!(errs2.len(), 1);
    assert_eq!(errs2[0].kind, LexErrorKind::IntegerOverflow);
    assert_eq!(errs2[0].span.start, 0);
    assert_eq!(errs2[0].span.end, 19);
}

#[test]
fn bit_vector_literals_keep_their_raw_text() {
    let (toks, errs) = tokenize("'3b010 'hfz_ '4d12");
    assert!(errs.is_empty());
    let got: Vec<VToken> = toks.into_iter().map(|(t, _)| t).collect();
    assert_eq!(
        got,
        vec![
            VToken::BitVector("'3b010".to_string()),
            VToken::BitVector("'hfz_".to_string()),
            VToken::BitVector("'4d12".to_string()),
        ]
    );
}

#[test]
fn lone_quote_is_an_error() {
    let (toks, errs) = tokenize("' a");
    assert_eq!(toks.len(), 1);
    assert_eq!(errs.len(), 1);
    assert_eq!(errs[0].kind, LexErrorKind::UnrecognizedChar('\''));
}

#[test]
fn string_literals() {
    let (toks, errs) = tokenize("\"hello\"");
    assert!(errs.is_empty());
    assert_eq!(toks.len(), 1);
    assert_eq!(toks[0].0, VToken::StringLiteral("hello".to_string()));
    assert_eq!(toks[0].1.start, 0);
    assert_eq!(toks[0].1.end, 7);

    let (toks2, errs2) = tokenize("\"open");
    assert!(toks2.is_empty());
    assert_eq!(errs2.len(), 1);
    assert_eq!(errs2[0].kind, LexErrorKind::UnterminatedString);
}

#[test]
fn spans_reconstruct_the_stripped_source() {
    let src = "module m { // c\n}";
    let (toks, errs) = tokenize(src);
    assert!(errs.is_empty());
    let mut rebuilt = String::new();
    for (_, sp) in &toks {
        rebuilt.push_str(&src[sp.start..sp.end]);
    }
    assert_eq!(rebuilt, "modulem{}");
}

#[test]
fn maximal_munch_for_shift() {
    let (toks, errs) = tokenize("<<");
    assert!(errs.is_empty());
    assert_eq!(toks.len(), 1);
    assert_eq!(toks[0].0, VToken::Shl);

    let (toks2, errs2) = tokenize("<");
    assert!(toks2.is_empty());
    assert_eq!(errs2.len(), 1);
    assert_eq!(errs2[0].kind, LexErrorKind::UnrecognizedChar('<'));
}
