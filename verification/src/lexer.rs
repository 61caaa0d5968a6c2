//! Lexical analysis: from source text to a token sequence plus lexical
//! diagnostics.
//!
//! The scanner is total and error-tolerant: an unrecognized character, an
//! unterminated comment or string, or an integer overflow is recorded as a
//! [`LexError`] and scanning resumes, so one pass reports every lexical
//! fault.  The executable [`tokenize`] is proved to return exactly the
//! tokens and errors of the spec-level scanner [`spec_tokenize`], which
//! applies these rules at each position, in priority order:
//! whitespace, comments, punctuation and operators, keywords and
//! identifiers (maximal munch, keywords win), integers, bit-vector
//! literals, string literals; any other character is an error.

use vstd::prelude::*;

use crate::token::{tokens_view, LexError, LexErrorKind, Span, TokenV, VToken};

verus! {

// ---------------------------------------------------------------------------
// Character classes
// ---------------------------------------------------------------------------
/// Whitespace: space, tab, newline, form-feed.
pub open spec fn is_ws(c: char) -> bool {
    c == ' ' || c == '\t' || c == '\n' || c == '\u{0C}'
}

/// First character of an identifier: a letter or an underscore.
pub open spec fn is_ident_start(c: char) -> bool {
    ('a' as u32 <= c as u32 && c as u32 <= 'z' as u32) || ('A' as u32 <= c as u32 && c as u32
        <= 'Z' as u32) || c == '_'
}

/// Continuation character of an identifier.
pub open spec fn is_ident_cont(c: char) -> bool {
    is_ident_start(c) || is_digit(c)
}

/// A decimal digit.
pub open spec fn is_digit(c: char) -> bool {
    '0' as u32 <= c as u32 && c as u32 <= '9' as u32
}

/// The base letter of a bit-vector literal.
pub open spec fn is_base_letter(c: char) -> bool {
    c == 'b' || c == 'B' || c == 'h' || c == 'd' || c == 'D'
}

/// A payload character of a bit-vector literal: a hexadecimal or decimal
/// digit, `x`, `z`, or `_`.
pub open spec fn is_bv_digit(c: char) -> bool {
    is_digit(c) || ('a' as u32 <= c as u32 && c as u32 <= 'f' as u32) || ('A' as u32 <= c as u32
        && c as u32 <= 'F' as u32) || c == 'x' || c == 'z' || c == '_'
}

/// The numeric value of a decimal digit character.
pub open spec fn digit_val(c: char) -> int {
    c as u32 - '0' as u32
}

// ---------------------------------------------------------------------------
// Scan-end helpers: each extends a run from position `i` and returns the
// first position past it.
// ---------------------------------------------------------------------------
/// End of the whitespace run starting at `i`.
pub open spec fn ws_end(s: Seq<char>, i: int) -> int
    decreases s.len() - i,
{
    if 0 <= i < s.len() && is_ws(s[i]) {
        ws_end(s, i + 1)
    } else {
        i
    }
}

/// End of a line comment whose body starts at `i`: the position of the next
/// newline (the newline itself is left to the whitespace rule) or the end of
/// input.
pub open spec fn line_comment_end(s: Seq<char>, i: int) -> int
    decreases s.len() - i,
{
    if 0 <= i < s.len() && s[i] != '\n' {
        line_comment_end(s, i + 1)
    } else {
        i
    }
}

/// End of a block comment whose body starts at `i`: the position just past
/// the closing `*/`, or `None` if the comment is still open at end of input.
pub open spec fn block_comment_end(s: Seq<char>, i: int) -> Option<int>
    decreases s.len() - i,
{
    if 0 <= i && i + 1 < s.len() {
        if s[i] == '*' && s[i + 1] == '/' {
            Some(i + 2)
        } else {
            block_comment_end(s, i + 1)
        }
    } else {
        None
    }
}

/// End of the identifier run starting at `i`.
pub open spec fn ident_end(s: Seq<char>, i: int) -> int
    decreases s.len() - i,
{
    if 0 <= i < s.len() && is_ident_cont(s[i]) {
        ident_end(s, i + 1)
    } else {
        i
    }
}

/// End of the decimal-digit run starting at `i`.
pub open spec fn digits_end(s: Seq<char>, i: int) -> int
    decreases s.len() - i,
{
    if 0 <= i < s.len() && is_digit(s[i]) {
        digits_end(s, i + 1)
    } else {
        i
    }
}

/// End of the bit-vector payload run starting at `i`.
pub open spec fn bv_digits_end(s: Seq<char>, i: int) -> int
    decreases s.len() - i,
{
    if 0 <= i < s.len() && is_bv_digit(s[i]) {
        bv_digits_end(s, i + 1)
    } else {
        i
    }
}

/// End of a string literal whose body starts at `i` (just past the opening
/// quote): the position just past the closing quote, or `None` if the
/// literal is still open at end of input.
pub open spec fn string_end(s: Seq<char>, i: int) -> Option<int>
    decreases s.len() - i,
{
    if 0 <= i < s.len() {
        if s[i] == '"' {
            Some(i + 1)
        } else {
            string_end(s, i + 1)
        }
    } else {
        None
    }
}

/// The value of a run of decimal digits, most significant first.
pub open spec fn digits_val(ds: Seq<char>) -> int
    decreases ds,
{
    if ds.len() == 0 {
        0
    } else {
        digits_val(ds.drop_last()) * 10 + digit_val(ds.last())
    }
}

// ---------------------------------------------------------------------------
// Keywords and punctuation
// ---------------------------------------------------------------------------
/// The token an identifier-shaped word denotes: the matching keyword, or an
/// `Identifier` carrying the word itself.  Keywords always win; a word that
/// merely begins with one (such as one with a trailing digit) is an
/// identifier because the word is scanned to its full maximal-munch extent
/// before this lookup.
pub open spec fn word_token(w: Seq<char>) -> TokenV {
    if w == "module"@ {
        TokenV::Module
    } else if w == "port"@ {
        TokenV::Port
    } else if w == "input"@ {
        TokenV::Input
    } else if w == "output"@ {
        TokenV::Output
    } else if w == "reg"@ {
        TokenV::Reg
    } else if w == "wire"@ {
        TokenV::Wire
    } else if w == "combinatorial"@ {
        TokenV::Combinatorial
    } else if w == "switch"@ {
        TokenV::Switch
    } else if w == "case"@ {
        TokenV::Case
    } else if w == "default"@ {
        TokenV::Default
    } else if w == "gen"@ {
        TokenV::Gen
    } else if w == "if"@ {
        TokenV::If
    } else {
        TokenV::Identifier(w)
    }
}

/// The token denoted by a single punctuation or operator character, if any.
/// `<` is absent: it forms a token only as part of `<<`.
pub open spec fn punct_token(c: char) -> Option<TokenV> {
    if c == '{' {
        Some(TokenV::LBrace)
    } else if c == '}' {
        Some(TokenV::RBrace)
    } else if c == '[' {
        Some(TokenV::LBracket)
    } else if c == ']' {
        Some(TokenV::RBracket)
    } else if c == '(' {
        Some(TokenV::LParen)
    } else if c == ')' {
        Some(TokenV::RParen)
    } else if c == ':' {
        Some(TokenV::Colon)
    } else if c == ';' {
        Some(TokenV::Semicolon)
    } else if c == '=' {
        Some(TokenV::Assign)
    } else if c == '+' {
        Some(TokenV::Plus)
    } else if c == '-' {
        Some(TokenV::Minus)
    } else if c == '&' {
        Some(TokenV::BitAnd)
    } else if c == '|' {
        Some(TokenV::BitOr)
    } else if c == '^' {
        Some(TokenV::BitXor)
    } else {
        None
    }
}

// ---------------------------------------------------------------------------
// One scan step
// ---------------------------------------------------------------------------
/// The outcome of one scan step at a position inside the source: a skipped
/// region, a token, or a lexical error, each with the position at which
/// scanning resumes.  A token's span is `[i, next)`; an error's span is
/// `[i, next)` as well, so an unterminated comment or string spans to the
/// end of the input.
pub enum LexStep {
    Skip(int),
    Tok(TokenV, int),
    Fault(LexErrorKind, int),
}

/// The position at which scanning resumes after a step.
pub open spec fn step_next(st: LexStep) -> int {
    match st {
        LexStep::Skip(j) => j,
        LexStep::Tok(_, j) => j,
        LexStep::Fault(_, j) => j,
    }
}

/// One scan step at position `i`, `0 <= i < s.len()`: the rules of the
/// lexical grammar in priority order.
pub open spec fn lex_step(s: Seq<char>, i: int) -> LexStep {
    if is_ws(s[i]) {
        LexStep::Skip(ws_end(s, i + 1))
    } else if s[i] == '/' && i + 1 < s.len() && s[i + 1] == '/' {
        LexStep::Skip(line_comment_end(s, i + 2))
    } else if s[i] == '/' && i + 1 < s.len() && s[i + 1] == '*' {
        match block_comment_end(s, i + 2) {
            Some(j) => LexStep::Skip(j),
            None => LexStep::Fault(LexErrorKind::UnterminatedComment, s.len() as int),
        }
    } else if s[i] == '<' {
        if i + 1 < s.len() && s[i + 1] == '<' {
            LexStep::Tok(TokenV::Shl, i + 2)
        } else {
            LexStep::Fault(LexErrorKind::UnrecognizedChar(s[i]), i + 1)
        }
    } else if punct_token(s[i]) is Some {
        LexStep::Tok(punct_token(s[i]).unwrap(), i + 1)
    } else if is_ident_start(s[i]) {
        let j = ident_end(s, i);
        LexStep::Tok(word_token(s.subrange(i, j)), j)
    } else if is_digit(s[i]) {
        let j = digits_end(s, i);
        if digits_val(s.subrange(i, j)) > i64::MAX as int {
            LexStep::Fault(LexErrorKind::IntegerOverflow, j)
        } else {
            LexStep::Tok(TokenV::Integer(digits_val(s.subrange(i, j)) as i64), j)
        }
    } else if s[i] == '\'' {
        let j = digits_end(s, i + 1);
        if j < s.len() && is_base_letter(s[j]) && bv_digits_end(s, j + 1) > j + 1 {
            let k = bv_digits_end(s, j + 1);
            LexStep::Tok(TokenV::BitVector(s.subrange(i, k)), k)
        } else {
            LexStep::Fault(LexErrorKind::UnrecognizedChar(s[i]), i + 1)
        }
    } else if s[i] == '"' {
        match string_end(s, i + 1) {
            Some(j) => LexStep::Tok(TokenV::StringLiteral(s.subrange(i + 1, j - 1)), j),
            None => LexStep::Fault(LexErrorKind::UnterminatedString, s.len() as int),
        }
    } else {
        LexStep::Fault(LexErrorKind::UnrecognizedChar(s[i]), i + 1)
    }
}

// ---------------------------------------------------------------------------
// Bounds of the scan-end helpers and of a step
// ---------------------------------------------------------------------------
pub proof fn lemma_ws_end_bounds(s: Seq<char>, i: int)
    requires
        0 <= i <= s.len(),
    ensures
        i <= ws_end(s, i) <= s.len(),
    decreases s.len() - i,
{
    if i < s.len() && is_ws(s[i]) {
        lemma_ws_end_bounds(s, i + 1);
    }
}

pub proof fn lemma_line_comment_end_bounds(s: Seq<char>, i: int)
    requires
        0 <= i <= s.len(),
    ensures
        i <= line_comment_end(s, i) <= s.len(),
    decreases s.len() - i,
{
    if i < s.len() && s[i] != '\n' {
        lemma_line_comment_end_bounds(s, i + 1);
    }
}

pub proof fn lemma_block_comment_end_bounds(s: Seq<char>, i: int)
    requires
        0 <= i <= s.len(),
    ensures
        match block_comment_end(s, i) {
            Some(j) => i + 2 <= j <= s.len(),
            None => true,
        },
    decreases s.len() - i,
{
    if i + 1 < s.len() && !(s[i] == '*' && s[i + 1] == '/') {
        lemma_block_comment_end_bounds(s, i + 1);
    }
}

pub proof fn lemma_ident_end_bounds(s: Seq<char>, i: int)
    requires
        0 <= i <= s.len(),
    ensures
        i <= ident_end(s, i) <= s.len(),
    decreases s.len() - i,
{
    if i < s.len() && is_ident_cont(s[i]) {
        lemma_ident_end_bounds(s, i + 1);
    }
}

pub proof fn lemma_digits_end_bounds(s: Seq<char>, i: int)
    requires
        0 <= i <= s.len(),
    ensures
        i <= digits_end(s, i) <= s.len(),
    decreases s.len() - i,
{
    if i < s.len() && is_digit(s[i]) {
        lemma_digits_end_bounds(s, i + 1);
    }
}

pub proof fn lemma_bv_digits_end_bounds(s: Seq<char>, i: int)
    requires
        0 <= i <= s.len(),
    ensures
        i <= bv_digits_end(s, i) <= s.len(),
    decreases s.len() - i,
{
    if i < s.len() && is_bv_digit(s[i]) {
        lemma_bv_digits_end_bounds(s, i + 1);
    }
}

pub proof fn lemma_string_end_bounds(s: Seq<char>, i: int)
    requires
        0 <= i <= s.len(),
    ensures
        match string_end(s, i) {
            Some(j) => i + 1 <= j <= s.len(),
            None => true,
        },
    decreases s.len() - i,
{
    if i < s.len() && s[i] != '"' {
        lemma_string_end_bounds(s, i + 1);
    }
}

/// Every scan step advances: the resume position lies strictly past `i`
/// and within the input.
pub proof fn lemma_step_advances(s: Seq<char>, i: int)
    requires
        0 <= i < s.len(),
    ensures
        i < step_next(lex_step(s, i)) <= s.len(),
{
    lemma_ws_end_bounds(s, i + 1);
    if i + 1 <= s.len() {
        lemma_digits_end_bounds(s, i + 1);
    }
    if i + 2 <= s.len() {
        lemma_line_comment_end_bounds(s, i + 2);
        lemma_block_comment_end_bounds(s, i + 2);
        lemma_string_end_bounds(s, i + 1);
    } else if i + 1 <= s.len() {
        lemma_string_end_bounds(s, i + 1);
    }
    lemma_ident_end_bounds(s, i);
    lemma_ident_end_bounds(s, i + 1);
    lemma_digits_end_bounds(s, i);
    let j = digits_end(s, i + 1);
    if j + 1 <= s.len() {
        lemma_bv_digits_end_bounds(s, j + 1);
    }
}

// ---------------------------------------------------------------------------
// The whole scan
// ---------------------------------------------------------------------------
/// The tokens and errors produced from position `i` to the end of the
/// input.  The guard on the recursive position can never fire (every step
/// advances, by [`lemma_step_advances`]); it only makes the measure
/// manifest.
pub open spec fn lex_all(s: Seq<char>, i: int) -> (Seq<(TokenV, Span)>, Seq<LexError>)
    decreases s.len() - i,
    when 0 <= i <= s.len()
{
    if i >= s.len() {
        (Seq::empty(), Seq::empty())
    } else {
        let st = lex_step(s, i);
        let j = step_next(st);
        let j2 = if i < j <= s.len() {
            j
        } else {
            i + 1
        };
        let rest = lex_all(s, j2);
        match st {
            LexStep::Skip(_) => rest,
            LexStep::Tok(t, _) => (
                seq![(t, Span { start: i as usize, end: j2 as usize })].add(rest.0),
                rest.1,
            ),
            LexStep::Fault(k, _) => (
                rest.0,
                seq![
                    LexError { span: Span { start: i as usize, end: j2 as usize }, kind: k },
                ].add(rest.1),
            ),
        }
    }
}

/// The mathematical result of lexing a whole source text.
pub open spec fn spec_tokenize(s: Seq<char>) -> (Seq<(TokenV, Span)>, Seq<LexError>) {
    lex_all(s, 0)
}

/// One unfolding of [`lex_all`] at an in-range position, with the clamp on
/// the resume position discharged.
pub proof fn lemma_lex_all_unfold(s: Seq<char>, i: int)
    requires
        0 <= i < s.len(),
    ensures
        lex_all(s, i) == ({
            let st = lex_step(s, i);
            let j = step_next(st);
            let rest = lex_all(s, j);
            match st {
                LexStep::Skip(_) => rest,
                LexStep::Tok(t, _) => (
                    seq![(t, Span { start: i as usize, end: j as usize })].add(rest.0),
                    rest.1,
                ),
                LexStep::Fault(k, _) => (
                    rest.0,
                    seq![
                        LexError { span: Span { start: i as usize, end: j as usize }, kind: k },
                    ].add(rest.1),
                ),
            }
        }),
{
    lemma_step_advances(s, i);
}

// ---------------------------------------------------------------------------
// Executable character classes
// ---------------------------------------------------------------------------
fn is_ws_x(c: char) -> (r: bool)
    ensures
        r == is_ws(c),
{
    c == ' ' || c == '\t' || c == '\n' || c == '\u{0C}'
}

fn is_ident_start_x(c: char) -> (r: bool)
    ensures
        r == is_ident_start(c),
{
    let u = c as u32;
    ('a' as u32 <= u && u <= 'z' as u32) || ('A' as u32 <= u && u <= 'Z' as u32) || c == '_'
}

fn is_digit_x(c: char) -> (r: bool)
    ensures
        r == is_digit(c),
{
    let u = c as u32;
    '0' as u32 <= u && u <= '9' as u32
}

fn is_ident_cont_x(c: char) -> (r: bool)
    ensures
        r == is_ident_cont(c),
{
    is_ident_start_x(c) || is_digit_x(c)
}

fn is_base_letter_x(c: char) -> (r: bool)
    ensures
        r == is_base_letter(c),
{
    c == 'b' || c == 'B' || c == 'h' || c == 'd' || c == 'D'
}

fn is_bv_digit_x(c: char) -> (r: bool)
    ensures
        r == is_bv_digit(c),
{
    let u = c as u32;
    is_digit_x(c) || ('a' as u32 <= u && u <= 'f' as u32) || ('A' as u32 <= u && u <= 'F' as u32)
        || c == 'x' || c == 'z' || c == '_'
}

// ---------------------------------------------------------------------------
// Executable scan-end helpers, each the mirror image of its spec function
// ---------------------------------------------------------------------------
fn ws_end_x(cs: &Vec<char>, i: usize) -> (j: usize)
    requires
        i <= cs.len(),
    ensures
        j == ws_end(cs@, i as int),
        i <= j <= cs.len(),
    decreases cs.len() - i,
{
    if i < cs.len() && is_ws_x(cs[i]) {
        ws_end_x(cs, i + 1)
    } else {
        i
    }
}

fn line_comment_end_x(cs: &Vec<char>, i: usize) -> (j: usize)
    requires
        i <= cs.len(),
    ensures
        j == line_comment_end(cs@, i as int),
        i <= j <= cs.len(),
    decreases cs.len() - i,
{
    if i < cs.len() && cs[i] != '\n' {
        line_comment_end_x(cs, i + 1)
    } else {
        i
    }
}

fn block_comment_end_x(cs: &Vec<char>, i: usize) -> (r: Option<usize>)
    requires
        i <= cs.len(),
    ensures
        match r {
            Some(j) => block_comment_end(cs@, i as int) == Some(j as int) && i + 2 <= j
                <= cs.len(),
            None => block_comment_end(cs@, i as int) is None,
        },
    decreases cs.len() - i,
{
    if i < cs.len() && i + 1 < cs.len() {
        if cs[i] == '*' && cs[i + 1] == '/' {
            Some(i + 2)
        } else {
            block_comment_end_x(cs, i + 1)
        }
    } else {
        None
    }
}

fn ident_end_x(cs: &Vec<char>, i: usize) -> (j: usize)
    requires
        i <= cs.len(),
    ensures
        j == ident_end(cs@, i as int),
        i <= j <= cs.len(),
    decreases cs.len() - i,
{
    if i < cs.len() && is_ident_cont_x(cs[i]) {
        ident_end_x(cs, i + 1)
    } else {
        i
    }
}

fn digits_end_x(cs: &Vec<char>, i: usize) -> (j: usize)
    requires
        i <= cs.len(),
    ensures
        j == digits_end(cs@, i as int),
        i <= j <= cs.len(),
        forall|k: int| i <= k < j ==> is_digit(cs@[k]),
    decreases cs.len() - i,
{
    if i < cs.len() && is_digit_x(cs[i]) {
        digits_end_x(cs, i + 1)
    } else {
        i
    }
}

fn bv_digits_end_x(cs: &Vec<char>, i: usize) -> (j: usize)
    requires
        i <= cs.len(),
    ensures
        j == bv_digits_end(cs@, i as int),
        i <= j <= cs.len(),
    decreases cs.len() - i,
{
    if i < cs.len() && is_bv_digit_x(cs[i]) {
        bv_digits_end_x(cs, i + 1)
    } else {
        i
    }
}

fn string_end_x(cs: &Vec<char>, i: usize) -> (r: Option<usize>)
    requires
        i <= cs.len(),
    ensures
        match r {
            Some(j) => string_end(cs@, i as int) == Some(j as int) && i + 1 <= j <= cs.len(),
            None => string_end(cs@, i as int) is None,
        },
    decreases cs.len() - i,
{
    if i < cs.len() {
        if cs[i] == '"' {
            Some(i + 1)
        } else {
            string_end_x(cs, i + 1)
        }
    } else {
        None
    }
}

// ---------------------------------------------------------------------------
// Integer value of a digit run, with overflow detection
// ---------------------------------------------------------------------------
/// Computes the value of the digit run `cs[i..j]`, or `None` if it exceeds
/// `i64::MAX`.
fn scan_int_value(cs: &Vec<char>, i: usize, j: usize) -> (r: Option<i64>)
    requires
        i <= j <= cs.len(),
        forall|k: int| i <= k < j ==> is_digit(cs@[k]),
    ensures
        match r {
            Some(v) => 0 <= v && v as int == digits_val(cs@.subrange(i as int, j as int)),
            None => digits_val(cs@.subrange(i as int, j as int)) > i64::MAX as int,
        },
{
    let mut acc: i64 = 0;
    let mut overflow: bool = false;
    let mut k: usize = i;
    while k < j
        invariant
            i <= k <= j <= cs.len(),
            forall|t: int| i <= t < j ==> is_digit(cs@[t]),
            !overflow ==> 0 <= acc && acc as int == digits_val(
                cs@.subrange(i as int, k as int),
            ),
            overflow ==> digits_val(cs@.subrange(i as int, k as int)) > i64::MAX as int,
        decreases j - k,
    {
        let ghost pre = cs@.subrange(i as int, k as int);
        let ghost post = cs@.subrange(i as int, k as int + 1);
        proof {
            assert(post.drop_last() =~= pre);
            assert(post.last() == cs@[k as int]);
        }
        let c = cs[k];
        let d: u32 = c as u32 - '0' as u32;
        if !overflow {
            let wide: i128 = acc as i128 * 10 + d as i128;
            if wide > i64::MAX as i128 {
                overflow = true;
            } else {
                acc = wide as i64;
            }
        }
        k = k + 1;
    }
    proof {
        assert(cs@.subrange(i as int, j as int) =~= cs@.subrange(i as int, k as int));
    }
    if overflow {
        None
    } else {
        Some(acc)
    }
}

// ---------------------------------------------------------------------------
// Words and keywords
// ---------------------------------------------------------------------------
/// The source text at character range `[i, j)`, as an owned string.
fn word_at(src: &str, i: usize, j: usize) -> (w: String)
    requires
        i <= j <= src@.len(),
    ensures
        w@ == src@.subrange(i as int, j as int),
{
    src.substring_char(i, j).to_owned()
}

/// The token a scanned identifier-shaped word denotes.
fn word_to_token(w: String) -> (t: VToken)
    ensures
        t@ == word_token(w@),
{
    if w == String::from_str("module") {
        VToken::Module
    } else if w == String::from_str("port") {
        VToken::Port
    } else if w == String::from_str("input") {
        VToken::Input
    } else if w == String::from_str("output") {
        VToken::Output
    } else if w == String::from_str("reg") {
        VToken::Reg
    } else if w == String::from_str("wire") {
        VToken::Wire
    } else if w == String::from_str("combinatorial") {
        VToken::Combinatorial
    } else if w == String::from_str("switch") {
        VToken::Switch
    } else if w == String::from_str("case") {
        VToken::Case
    } else if w == String::from_str("default") {
        VToken::Default
    } else if w == String::from_str("gen") {
        VToken::Gen
    } else if w == String::from_str("if") {
        VToken::If
    } else {
        VToken::Identifier(w)
    }
}

/// The token denoted by one punctuation or operator character.
fn punct_x(c: char) -> (r: Option<VToken>)
    ensures
        match r {
            Some(t) => punct_token(c) == Some(t@),
            None => punct_token(c) is None,
        },
{
    if c == '{' {
        Some(VToken::LBrace)
    } else if c == '}' {
        Some(VToken::RBrace)
    } else if c == '[' {
        Some(VToken::LBracket)
    } else if c == ']' {
        Some(VToken::RBracket)
    } else if c == '(' {
        Some(VToken::LParen)
    } else if c == ')' {
        Some(VToken::RParen)
    } else if c == ':' {
        Some(VToken::Colon)
    } else if c == ';' {
        Some(VToken::Semicolon)
    } else if c == '=' {
        Some(VToken::Assign)
    } else if c == '+' {
        Some(VToken::Plus)
    } else if c == '-' {
        Some(VToken::Minus)
    } else if c == '&' {
        Some(VToken::BitAnd)
    } else if c == '|' {
        Some(VToken::BitOr)
    } else if c == '^' {
        Some(VToken::BitXor)
    } else {
        None
    }
}

// ---------------------------------------------------------------------------
// One executable scan step and the full scan
// ---------------------------------------------------------------------------
/// The executable outcome of one scan step.
enum Scanned {
    Skip(usize),
    Tok(VToken, usize),
    Fault(LexErrorKind, usize),
}

/// The spec-level reading of an executable scan step.
spec fn scanned_view(r: Scanned) -> LexStep {
    match r {
        Scanned::Skip(j) => LexStep::Skip(j as int),
        Scanned::Tok(t, j) => LexStep::Tok(t@, j as int),
        Scanned::Fault(k, j) => LexStep::Fault(k, j as int),
    }
}

/// One scan step at position `i`, mirroring [`lex_step`] rule for rule.
fn scan_at(src: &str, cs: &Vec<char>, i: usize) -> (r: Scanned)
    requires
        cs@ == src@,
        i < cs.len(),
    ensures
        scanned_view(r) == lex_step(src@, i as int),
{
    let c = cs[i];
    if is_ws_x(c) {
        Scanned::Skip(ws_end_x(cs, i + 1))
    } else if c == '/' && i + 1 < cs.len() && cs[i + 1] == '/' {
        Scanned::Skip(line_comment_end_x(cs, i + 2))
    } else if c == '/' && i + 1 < cs.len() && cs[i + 1] == '*' {
        match block_comment_end_x(cs, i + 2) {
            Some(j) => Scanned::Skip(j),
            None => Scanned::Fault(LexErrorKind::UnterminatedComment, cs.len()),
        }
    } else if c == '<' {
        if i + 1 < cs.len() && cs[i + 1] == '<' {
            Scanned::Tok(VToken::Shl, i + 2)
        } else {
            Scanned::Fault(LexErrorKind::UnrecognizedChar(c), i + 1)
        }
    } else if let Some(t) = punct_x(c) {
        Scanned::Tok(t, i + 1)
    } else if is_ident_start_x(c) {
        let j = ident_end_x(cs, i);
        let w = word_at(src, i, j);
        Scanned::Tok(word_to_token(w), j)
    } else if is_digit_x(c) {
        let j = digits_end_x(cs, i);
        match scan_int_value(cs, i, j) {
            Some(v) => Scanned::Tok(VToken::Integer(v), j),
            None => Scanned::Fault(LexErrorKind::IntegerOverflow, j),
        }
    } else if c == '\'' {
        let j = digits_end_x(cs, i + 1);
        if j < cs.len() && is_base_letter_x(cs[j]) {
            let k = bv_digits_end_x(cs, j + 1);
            if k > j + 1 {
                let text = word_at(src, i, k);
                Scanned::Tok(VToken::BitVector(text), k)
            } else {
                Scanned::Fault(LexErrorKind::UnrecognizedChar(c), i + 1)
            }
        } else {
            Scanned::Fault(LexErrorKind::UnrecognizedChar(c), i + 1)
        }
    } else if c == '"' {
        match string_end_x(cs, i + 1) {
            Some(j) => {
                let text = word_at(src, i + 1, j - 1);
                Scanned::Tok(VToken::StringLiteral(text), j)
            },
            None => Scanned::Fault(LexErrorKind::UnterminatedString, cs.len()),
        }
    } else {
        Scanned::Fault(LexErrorKind::UnrecognizedChar(c), i + 1)
    }
}

/// The characters of the source text, in order.
fn chars_of(s: &str) -> (cs: Vec<char>)
    ensures
        cs@ == s@,
{
    let n = s.unicode_len();
    let mut cs: Vec<char> = Vec::new();
    let mut i: usize = 0;
    proof {
        assert(cs@ =~= s@.subrange(0, 0));
    }
    while i < n
        invariant
            n == s@.len(),
            i <= n,
            cs@ == s@.subrange(0, i as int),
        decreases n - i,
    {
        cs.push(s.get_char(i));
        i = i + 1;
        proof {
            assert(cs@ =~= s@.subrange(0, i as int));
        }
    }
    proof {
        assert(s@.subrange(0, n as int) =~= s@);
    }
    cs
}

/// Lexical analysis of a whole source text: the ordered token sequence with
/// one span per token, and the ordered list of lexical errors.  Always
/// total; equal to the spec-level scan of the same text.
pub fn tokenize(src: &str) -> (r: (Vec<(VToken, Span)>, Vec<LexError>))
    ensures
        tokens_view(r.0@) == spec_tokenize(src@).0,
        r.1@ == spec_tokenize(src@).1,
{
    let cs = chars_of(src);
    let n = cs.len();
    let mut toks: Vec<(VToken, Span)> = Vec::new();
    let mut errs: Vec<LexError> = Vec::new();
    let mut i: usize = 0;
    proof {
        assert(tokens_view(toks@) + lex_all(src@, 0).0 =~= spec_tokenize(src@).0);
        assert(errs@ + lex_all(src@, 0).1 =~= spec_tokenize(src@).1);
    }
    while i < n
        invariant
            cs@ == src@,
            n == cs.len(),
            i <= n,
            tokens_view(toks@) + lex_all(src@, i as int).0 == spec_tokenize(src@).0,
            errs@ + lex_all(src@, i as int).1 == spec_tokenize(src@).1,
        decreases n - i,
    {
        proof {
            lemma_lex_all_unfold(src@, i as int);
            lemma_step_advances(src@, i as int);
        }
        let ghost pre_toks = toks@;
        let ghost pre_errs = errs@;
        match scan_at(src, &cs, i) {
            Scanned::Skip(j) => {
                i = j;
            },
            Scanned::Tok(t, j) => {
                let ghost tv = t@;
                toks.push((t, Span { start: i, end: j }));
                proof {
                    let sp = Span { start: i, end: j };
                    assert(tokens_view(toks@) =~= tokens_view(pre_toks).push((tv, sp)));
                    assert(tokens_view(pre_toks).push((tv, sp)) + lex_all(src@, j as int).0
                        =~= tokens_view(pre_toks) + (seq![(tv, sp)] + lex_all(
                        src@,
                        j as int,
                    ).0));
                }
                i = j;
            },
            Scanned::Fault(k, j) => {
                errs.push(LexError { span: Span { start: i, end: j }, kind: k });
                proof {
                    let e = LexError { span: Span { start: i, end: j }, kind: k };
                    assert(errs@ =~= pre_errs.push(e));
                    assert(pre_errs.push(e) + lex_all(src@, j as int).1 =~= pre_errs + (
                    seq![e] + lex_all(src@, j as int).1));
                }
                i = j;
            },
        }
    }
    proof {
        assert(tokens_view(toks@) + lex_all(src@, n as int).0 =~= tokens_view(toks@));
        assert(errs@ + lex_all(src@, n as int).1 =~= errs@);
    }
    (toks, errs)
}

// ---------------------------------------------------------------------------
// Laws of the scan
// ---------------------------------------------------------------------------
/// The characters of the source from position `i` on that belong to
/// tokens: what remains after the skipped whitespace and comments and the
/// error spans are removed.  The clamp on the resume position mirrors
/// [`lex_all`] and is equally inert.
pub open spec fn stripped_from(s: Seq<char>, i: int) -> Seq<char>
    decreases s.len() - i,
    when 0 <= i <= s.len()
{
    if i >= s.len() {
        Seq::empty()
    } else {
        let st = lex_step(s, i);
        let j = step_next(st);
        let j2 = if i < j <= s.len() {
            j
        } else {
            i + 1
        };
        match st {
            LexStep::Tok(_, _) => s.subrange(i, j2).add(stripped_from(s, j2)),
            _ => stripped_from(s, j2),
        }
    }
}

/// The concatenation of the source text under each token's span, in token
/// order.
pub open spec fn spans_text(s: Seq<char>, toks: Seq<(TokenV, Span)>) -> Seq<char>
    decreases toks.len(),
{
    if toks.len() == 0 {
        Seq::empty()
    } else {
        s.subrange(toks[0].1.start as int, toks[0].1.end as int).add(
            spans_text(s, toks.drop_first()),
        )
    }
}

/// Whether the spans of a token list are well-formed between `lo` and
/// `hi`: each within those bounds, in order, and non-overlapping.
pub open spec fn spans_ordered(toks: Seq<(TokenV, Span)>, lo: int, hi: int) -> bool
    decreases toks.len(),
{
    if toks.len() == 0 {
        true
    } else {
        &&& lo <= toks[0].1.start <= toks[0].1.end <= hi
        &&& spans_ordered(toks.drop_first(), toks[0].1.end as int, hi)
    }
}

/// Well-formed spans stay well-formed under a smaller lower bound.
proof fn lemma_spans_ordered_weaken(toks: Seq<(TokenV, Span)>, lo1: int, lo2: int, hi: int)
    requires
        spans_ordered(toks, lo2, hi),
        lo1 <= lo2,
    ensures
        spans_ordered(toks, lo1, hi),
{
}

/// The spans of the tokens scanned from position `i` on are within
/// `[i, s.len()]`, in order, and non-overlapping.
pub proof fn lemma_lex_spans_ordered(s: Seq<char>, i: int)
    requires
        0 <= i <= s.len(),
        s.len() <= usize::MAX,
    ensures
        spans_ordered(lex_all(s, i).0, i, s.len() as int),
    decreases s.len() - i,
{
    if i < s.len() {
        lemma_lex_all_unfold(s, i);
        lemma_step_advances(s, i);
        let st = lex_step(s, i);
        let j = step_next(st);
        lemma_lex_spans_ordered(s, j);
        match st {
            LexStep::Tok(t, _) => {
                let sp = Span { start: i as usize, end: j as usize };
                let cons = seq![(t, sp)].add(lex_all(s, j).0);
                assert(lex_all(s, i).0 == cons);
                assert(cons[0] == (t, sp));
                assert(cons.drop_first() =~= lex_all(s, j).0);
                assert(spans_ordered(cons.drop_first(), j, s.len() as int));
                assert(spans_ordered(cons, i, s.len() as int));
            },
            LexStep::Skip(_) => {
                lemma_spans_ordered_weaken(lex_all(s, j).0, i, j, s.len() as int);
            },
            LexStep::Fault(_, _) => {
                lemma_spans_ordered_weaken(lex_all(s, j).0, i, j, s.len() as int);
            },
        }
    }
}

/// From position `i` on, concatenating the text under the scanned tokens'
/// spans yields exactly the stripped source: every character of every
/// token survives once, in order, and only skipped or faulty characters
/// are dropped.
pub proof fn lemma_spans_text_from(s: Seq<char>, i: int)
    requires
        0 <= i <= s.len(),
        s.len() <= usize::MAX,
    ensures
        spans_text(s, lex_all(s, i).0) == stripped_from(s, i),
    decreases s.len() - i,
{
    if i < s.len() {
        lemma_lex_all_unfold(s, i);
        lemma_step_advances(s, i);
        let st = lex_step(s, i);
        let j = step_next(st);
        lemma_spans_text_from(s, j);
        match st {
            LexStep::Tok(t, _) => {
                let sp = Span { start: i as usize, end: j as usize };
                let cons = seq![(t, sp)].add(lex_all(s, j).0);
                assert(lex_all(s, i).0 == cons);
                assert(cons[0] == (t, sp));
                assert(cons.drop_first() =~= lex_all(s, j).0);
                assert(stripped_from(s, i) == s.subrange(i, j).add(stripped_from(s, j)));
                assert(spans_text(s, cons) == s.subrange(sp.start as int, sp.end as int).add(
                    spans_text(s, cons.drop_first()),
                ));
            },
            LexStep::Skip(_) => {
                assert(stripped_from(s, i) == stripped_from(s, j));
            },
            LexStep::Fault(_, _) => {
                assert(stripped_from(s, i) == stripped_from(s, j));
            },
        }
    }
}

/// Lexical faithfulness of the token spans: the scan of a whole source
/// loses no token character and fabricates none.  The tokens' spans lie
/// within the source, in order and without overlap, and the concatenation
/// of the source text under them is exactly the source with the skipped
/// whitespace, comments and error spans removed.
pub proof fn lemma_tokens_reconstruct_source(s: Seq<char>)
    requires
        s.len() <= usize::MAX,
    ensures
        spans_ordered(spec_tokenize(s).0, 0, s.len() as int),
        spans_text(s, spec_tokenize(s).0) == stripped_from(s, 0),
{
    lemma_lex_spans_ordered(s, 0);
    lemma_spans_text_from(s, 0);
}

/// Keyword against identifier: the word `module` always becomes the
/// `module` keyword token and never an identifier, while a word that
/// merely begins with it, such as `module2`, becomes an identifier
/// carrying its full text.  An identifier token always carries exactly
/// the scanned word.
pub proof fn lemma_keyword_vs_identifier()
    ensures
        word_token("module"@) == TokenV::Module,
        word_token("module2"@) == TokenV::Identifier("module2"@),
        forall|w: Seq<char>| (#[trigger] word_token(w)) is Identifier ==> word_token(
            w,
        )->Identifier_0 == w,
{
    reveal_strlit("module");
    reveal_strlit("module2");
    reveal_strlit("port");
    reveal_strlit("input");
    reveal_strlit("output");
    reveal_strlit("reg");
    reveal_strlit("wire");
    reveal_strlit("combinatorial");
    reveal_strlit("switch");
    reveal_strlit("case");
    reveal_strlit("default");
    reveal_strlit("gen");
    reveal_strlit("if");
    assert("module2"@.len() == 7);
    assert("module"@.len() == 6);
    assert("module2"@[6] == '2');
}

} // verus!
