//! The mathematical model of scanning.
//!
//! `scan_from` maps a source byte sequence, a scan position and a line counter
//! to the exact sequence of tokens and diagnostics the scanner produces and to
//! the line the scan ends on. The scanner's contracts are stated against it.

use vstd::prelude::*;

use crate::token::{ErrorKind, ErrorView, TokenTypeView, TokenView};
use crate::utils::{spec_is_alpha, spec_is_alphanumeric, spec_is_digit};
use crate::utils::{
    BANG, CARRIAGE_RETURN, COMMA, DOT, EQUALS, GREATER, LEFT_BRACE, LEFT_PAREN, LESS, LOWER_A,
    LOWER_C, LOWER_D, LOWER_E, LOWER_F, LOWER_H, LOWER_I, LOWER_L, LOWER_N, LOWER_O, LOWER_P,
    LOWER_R, LOWER_S, LOWER_T, LOWER_U, LOWER_V, LOWER_W, MINUS, NEWLINE, PLUS, QUOTE,
    RIGHT_BRACE, RIGHT_PAREN, SEMICOLON, SLASH, SPACE, STAR, TAB,
};

verus! {

/// A singleton sequence for `Some`, the empty sequence for `None`.
pub open spec fn opt_seq<A>(o: Option<A>) -> Seq<A> {
    match o {
        Some(a) => seq![a],
        None => Seq::empty(),
    }
}

/// Number of newline bytes in `s[i..j]`.
pub open spec fn newline_count(s: Seq<u8>, i: int, j: int) -> int
    decreases j - i,
{
    if i < j {
        newline_count(s, i, j - 1) + (if s[j - 1] == NEWLINE {
            1int
        } else {
            0int
        })
    } else {
        0
    }
}

/// Length of the maximal run of decimal digits starting at `i`.
pub open spec fn digit_run_len(s: Seq<u8>, i: int) -> nat
    decreases s.len() - i,
{
    if 0 <= i < s.len() && spec_is_digit(s[i]) {
        (1 + digit_run_len(s, i + 1)) as nat
    } else {
        0
    }
}

/// Length of the maximal run of identifier bytes starting at `i`.
pub open spec fn alnum_run_len(s: Seq<u8>, i: int) -> nat
    decreases s.len() - i,
{
    if 0 <= i < s.len() && spec_is_alphanumeric(s[i]) {
        (1 + alnum_run_len(s, i + 1)) as nat
    } else {
        0
    }
}

/// Length of a line comment's body: every byte from `i` up to, excluding, the
/// next newline or the end of input.
pub open spec fn comment_body_len(s: Seq<u8>, i: int) -> nat
    decreases s.len() - i,
{
    if 0 <= i < s.len() && s[i] != NEWLINE {
        (1 + comment_body_len(s, i + 1)) as nat
    } else {
        0
    }
}

/// Length of a string literal's body: every byte from `i` up to, excluding, the
/// closing quote or the end of input.
pub open spec fn string_body_len(s: Seq<u8>, i: int) -> nat
    decreases s.len() - i,
{
    if 0 <= i < s.len() && s[i] != QUOTE {
        (1 + string_body_len(s, i + 1)) as nat
    } else {
        0
    }
}

/// The spelling "and".
pub open spec fn spell_and() -> Seq<u8> {
    seq![LOWER_A, LOWER_N, LOWER_D]
}

/// The spelling "class".
pub open spec fn spell_class() -> Seq<u8> {
    seq![LOWER_C, LOWER_L, LOWER_A, LOWER_S, LOWER_S]
}

/// The spelling "else".
pub open spec fn spell_else() -> Seq<u8> {
    seq![LOWER_E, LOWER_L, LOWER_S, LOWER_E]
}

/// The spelling "false".
pub open spec fn spell_false() -> Seq<u8> {
    seq![LOWER_F, LOWER_A, LOWER_L, LOWER_S, LOWER_E]
}

/// The spelling "for".
pub open spec fn spell_for() -> Seq<u8> {
    seq![LOWER_F, LOWER_O, LOWER_R]
}

/// The spelling "fun".
pub open spec fn spell_fun() -> Seq<u8> {
    seq![LOWER_F, LOWER_U, LOWER_N]
}

/// The spelling "if".
pub open spec fn spell_if() -> Seq<u8> {
    seq![LOWER_I, LOWER_F]
}

/// The spelling "nil".
pub open spec fn spell_nil() -> Seq<u8> {
    seq![LOWER_N, LOWER_I, LOWER_L]
}

/// The spelling "or".
pub open spec fn spell_or() -> Seq<u8> {
    seq![LOWER_O, LOWER_R]
}

/// The spelling "print".
pub open spec fn spell_print() -> Seq<u8> {
    seq![LOWER_P, LOWER_R, LOWER_I, LOWER_N, LOWER_T]
}

/// The spelling "return".
pub open spec fn spell_return() -> Seq<u8> {
    seq![LOWER_R, LOWER_E, LOWER_T, LOWER_U, LOWER_R, LOWER_N]
}

/// The spelling "super".
pub open spec fn spell_super() -> Seq<u8> {
    seq![LOWER_S, LOWER_U, LOWER_P, LOWER_E, LOWER_R]
}

/// The spelling "this".
pub open spec fn spell_this() -> Seq<u8> {
    seq![LOWER_T, LOWER_H, LOWER_I, LOWER_S]
}

/// The spelling "true".
pub open spec fn spell_true() -> Seq<u8> {
    seq![LOWER_T, LOWER_R, LOWER_U, LOWER_E]
}

/// The spelling "var".
pub open spec fn spell_var() -> Seq<u8> {
    seq![LOWER_V, LOWER_A, LOWER_R]
}

/// The spelling "while".
pub open spec fn spell_while() -> Seq<u8> {
    seq![LOWER_W, LOWER_H, LOWER_I, LOWER_L, LOWER_E]
}

/// The reserved-word kind an identifier spelling maps to, if any.
pub open spec fn keyword_token(text: Seq<u8>) -> Option<TokenTypeView> {
    if text == spell_and() {
        Some(TokenTypeView::And)
    } else if text == spell_class() {
        Some(TokenTypeView::Class)
    } else if text == spell_else() {
        Some(TokenTypeView::Else)
    } else if text == spell_false() {
        Some(TokenTypeView::False)
    } else if text == spell_for() {
        Some(TokenTypeView::For)
    } else if text == spell_fun() {
        Some(TokenTypeView::Fun)
    } else if text == spell_if() {
        Some(TokenTypeView::If)
    } else if text == spell_nil() {
        Some(TokenTypeView::Nil)
    } else if text == spell_or() {
        Some(TokenTypeView::Or)
    } else if text == spell_print() {
        Some(TokenTypeView::Print)
    } else if text == spell_return() {
        Some(TokenTypeView::Return)
    } else if text == spell_super() {
        Some(TokenTypeView::Super)
    } else if text == spell_this() {
        Some(TokenTypeView::This)
    } else if text == spell_true() {
        Some(TokenTypeView::True)
    } else if text == spell_var() {
        Some(TokenTypeView::Var)
    } else if text == spell_while() {
        Some(TokenTypeView::While)
    } else {
        None
    }
}

/// What one dispatch step from position `i` at line `line` does: where the
/// cursor lands, the new line counter, and the token or diagnostic it yields.
#[verifier::ext_equal]
pub struct ScanStep {
    pub next: int,
    pub line: int,
    pub token: Option<TokenView>,
    pub error: Option<ErrorView>,
}

/// A token covering `s[i..j]`, starting on `line`.
pub open spec fn token_at(s: Seq<u8>, i: int, j: int, line: int, kind: TokenTypeView) -> TokenView {
    TokenView { kind, lexeme: Some(s.subrange(i, j)), line }
}

/// A single-character token at `i`.
pub open spec fn simple_step(s: Seq<u8>, i: int, line: int, kind: TokenTypeView) -> ScanStep {
    ScanStep { next: i + 1, line, token: Some(token_at(s, i, i + 1, line, kind)), error: None }
}

/// One byte of lookahead folds `<c>=` into `two`; otherwise `<c>` alone is `one`.
pub open spec fn pair_step(
    s: Seq<u8>,
    i: int,
    line: int,
    two: TokenTypeView,
    one: TokenTypeView,
) -> ScanStep {
    if i + 1 < s.len() && s[i + 1] == EQUALS {
        ScanStep { next: i + 2, line, token: Some(token_at(s, i, i + 2, line, two)), error: None }
    } else {
        simple_step(s, i, line, one)
    }
}

/// A step that consumes `s[i..j]` and yields nothing.
pub open spec fn silent_step(j: int, line: int) -> ScanStep {
    ScanStep { next: j, line, token: None, error: None }
}

/// The string sub-scan entered at the opening quote `s[i]`: on success the
/// payload is the text strictly between the quotes and the token's line is the
/// line the string starts on; if input ends first, one unterminated-string
/// diagnostic is reported at that starting line. Either way every newline
/// consumed advances the line counter.
pub open spec fn string_step(s: Seq<u8>, i: int, line: int) -> ScanStep {
    let body = string_body_len(s, i + 1) as int;
    if i + 1 + body < s.len() {
        ScanStep {
            next: i + 2 + body,
            line: line + newline_count(s, i + 1, i + 1 + body),
            token: Some(
                TokenView {
                    kind: TokenTypeView::String(s.subrange(i + 1, i + 1 + body)),
                    lexeme: Some(s.subrange(i, i + 2 + body)),
                    line,
                },
            ),
            error: None,
        }
    } else {
        ScanStep {
            next: s.len() as int,
            line: line + newline_count(s, i + 1, s.len() as int),
            token: None,
            error: Some(ErrorView { kind: ErrorKind::UnterminatedString, line }),
        }
    }
}

/// Length of a number literal starting at digit `s[i]`: a maximal digit run,
/// then a fractional part only if a dot is followed by a further digit. A
/// trailing dot is left unconsumed.
pub open spec fn number_len(s: Seq<u8>, i: int) -> nat {
    let d = digit_run_len(s, i) as int;
    if i + d + 1 < s.len() && s[i + d] == DOT && spec_is_digit(s[i + d + 1]) {
        (d + 1 + digit_run_len(s, i + d + 1)) as nat
    } else {
        d as nat
    }
}

/// The number sub-scan entered at digit `s[i]`.
pub open spec fn number_step(s: Seq<u8>, i: int, line: int) -> ScanStep {
    let n = number_len(s, i) as int;
    ScanStep {
        next: i + n,
        line,
        token: Some(
            TokenView {
                kind: TokenTypeView::Number(s.subrange(i, i + n)),
                lexeme: Some(s.subrange(i, i + n)),
                line,
            },
        ),
        error: None,
    }
}

/// The identifier sub-scan entered at `s[i]`: maximal munch over identifier
/// bytes, then the completed spelling is redirected through the keyword table.
pub open spec fn identifier_step(s: Seq<u8>, i: int, line: int) -> ScanStep {
    let n = alnum_run_len(s, i) as int;
    let text = s.subrange(i, i + n);
    let kind = match keyword_token(text) {
        Some(reserved) => reserved,
        None => TokenTypeView::Identifier(text),
    };
    ScanStep {
        next: i + n,
        line,
        token: Some(TokenView { kind, lexeme: Some(text), line }),
        error: None,
    }
}

/// One dispatch step of the scanner: classify the byte at `i` and hand off to
/// the matching handler. Any byte outside the recognized classes is consumed
/// and reported as an unexpected character.
pub open spec fn scan_step(s: Seq<u8>, i: int, line: int) -> ScanStep
    recommends
        0 <= i < s.len(),
{
    let c = s[i];
    if c == LEFT_PAREN {
        simple_step(s, i, line, TokenTypeView::LeftParen)
    } else if c == RIGHT_PAREN {
        simple_step(s, i, line, TokenTypeView::RightParen)
    } else if c == LEFT_BRACE {
        simple_step(s, i, line, TokenTypeView::LeftBrace)
    } else if c == RIGHT_BRACE {
        simple_step(s, i, line, TokenTypeView::RightBrace)
    } else if c == COMMA {
        simple_step(s, i, line, TokenTypeView::Comma)
    } else if c == DOT {
        simple_step(s, i, line, TokenTypeView::Dot)
    } else if c == MINUS {
        simple_step(s, i, line, TokenTypeView::Minus)
    } else if c == PLUS {
        simple_step(s, i, line, TokenTypeView::Plus)
    } else if c == SEMICOLON {
        simple_step(s, i, line, TokenTypeView::Semicolon)
    } else if c == STAR {
        simple_step(s, i, line, TokenTypeView::Star)
    } else if c == BANG {
        pair_step(s, i, line, TokenTypeView::BangEqual, TokenTypeView::Bang)
    } else if c == EQUALS {
        pair_step(s, i, line, TokenTypeView::EqualEqual, TokenTypeView::Equal)
    } else if c == LESS {
        pair_step(s, i, line, TokenTypeView::LessEqual, TokenTypeView::Less)
    } else if c == GREATER {
        pair_step(s, i, line, TokenTypeView::GreaterEqual, TokenTypeView::Greater)
    } else if c == SLASH {
        if i + 1 < s.len() && s[i + 1] == SLASH {
            silent_step(i + 2 + comment_body_len(s, i + 2), line)
        } else {
            simple_step(s, i, line, TokenTypeView::Slash)
        }
    } else if c == SPACE || c == CARRIAGE_RETURN || c == TAB {
        silent_step(i + 1, line)
    } else if c == NEWLINE {
        silent_step(i + 1, line + 1)
    } else if c == QUOTE {
        string_step(s, i, line)
    } else if spec_is_digit(c) {
        number_step(s, i, line)
    } else if spec_is_alpha(c) {
        identifier_step(s, i, line)
    } else {
        ScanStep {
            next: i + 1,
            line,
            token: None,
            error: Some(ErrorView { kind: ErrorKind::UnexpectedCharacter, line }),
        }
    }
}

/// Everything one full scan from position `i` at line `line` produces.
#[verifier::ext_equal]
pub struct ScanOutput {
    pub tokens: Seq<TokenView>,
    pub errors: Seq<ErrorView>,
    pub end_line: int,
}

/// The tokens and diagnostics of scanning `s` from position `i` at line `line`
/// to the end of input, and the line the scan ends on. The end-of-input
/// sentinel is not included: the driver appends it once, at `end_line`.
pub open spec fn scan_from(s: Seq<u8>, i: int, line: int) -> ScanOutput
    decreases s.len() - i,
{
    if 0 <= i < s.len() {
        let st = scan_step(s, i, line);
        let j = if st.next <= s.len() {
            st.next
        } else {
            s.len() as int
        };
        let rest = scan_from(s, j, st.line);
        ScanOutput {
            tokens: opt_seq(st.token) + rest.tokens,
            errors: opt_seq(st.error) + rest.errors,
            end_line: rest.end_line,
        }
    } else {
        ScanOutput { tokens: Seq::empty(), errors: Seq::empty(), end_line: line }
    }
}


/// Newline counting splits at any midpoint.
pub proof fn lemma_newline_count_split(s: Seq<u8>, i: int, j: int, k: int)
    requires
        i <= j <= k,
    ensures
        newline_count(s, i, k) == newline_count(s, i, j) + newline_count(s, j, k),
    decreases k - j,
{
    if j < k {
        lemma_newline_count_split(s, i, j, k - 1);
    }
}

/// A range without newline bytes contributes nothing to the newline count.
pub proof fn lemma_newline_count_none(s: Seq<u8>, i: int, j: int)
    requires
        i <= j,
        forall|k: int| i <= k < j ==> s[k] != NEWLINE,
    ensures
        newline_count(s, i, j) == 0,
    decreases j - i,
{
    if i < j {
        lemma_newline_count_none(s, i, j - 1);
    }
}

/// A digit run stays inside the buffer, consists of digits, and is maximal.
pub proof fn lemma_digit_run(s: Seq<u8>, i: int)
    requires
        0 <= i <= s.len(),
    ensures
        i + digit_run_len(s, i) <= s.len(),
        forall|k: int| i <= k < i + digit_run_len(s, i) ==> spec_is_digit(s[k]),
        i + digit_run_len(s, i) < s.len() ==> !spec_is_digit(s[i + digit_run_len(s, i)]),
    decreases s.len() - i,
{
    if i < s.len() && spec_is_digit(s[i]) {
        lemma_digit_run(s, i + 1);
    }
}

/// An identifier run stays inside the buffer, consists of identifier bytes,
/// and is maximal.
pub proof fn lemma_alnum_run(s: Seq<u8>, i: int)
    requires
        0 <= i <= s.len(),
    ensures
        i + alnum_run_len(s, i) <= s.len(),
        forall|k: int| i <= k < i + alnum_run_len(s, i) ==> spec_is_alphanumeric(s[k]),
        i + alnum_run_len(s, i) < s.len() ==> !spec_is_alphanumeric(s[i + alnum_run_len(s, i)]),
    decreases s.len() - i,
{
    if i < s.len() && spec_is_alphanumeric(s[i]) {
        lemma_alnum_run(s, i + 1);
    }
}

/// A comment body stays inside the buffer, holds no newline, and ends at a
/// newline or at the end of input.
pub proof fn lemma_comment_body(s: Seq<u8>, i: int)
    requires
        0 <= i <= s.len(),
    ensures
        i + comment_body_len(s, i) <= s.len(),
        forall|k: int| i <= k < i + comment_body_len(s, i) ==> s[k] != NEWLINE,
        i + comment_body_len(s, i) < s.len() ==> s[i + comment_body_len(s, i)] == NEWLINE,
    decreases s.len() - i,
{
    if i < s.len() && s[i] != NEWLINE {
        lemma_comment_body(s, i + 1);
    }
}

/// A string body stays inside the buffer, holds no quote, and ends at a
/// closing quote or at the end of input.
pub proof fn lemma_string_body(s: Seq<u8>, i: int)
    requires
        0 <= i <= s.len(),
    ensures
        i + string_body_len(s, i) <= s.len(),
        forall|k: int| i <= k < i + string_body_len(s, i) ==> s[k] != QUOTE,
        i + string_body_len(s, i) < s.len() ==> s[i + string_body_len(s, i)] == QUOTE,
    decreases s.len() - i,
{
    if i < s.len() && s[i] != QUOTE {
        lemma_string_body(s, i + 1);
    }
}

/// One dispatch step lands inside the buffer and strictly advances the cursor.
pub proof fn lemma_scan_step_next(s: Seq<u8>, i: int, line: int)
    requires
        0 <= i < s.len(),
    ensures
        i < scan_step(s, i, line).next <= s.len(),
{
    let c = s[i];
    if c == SLASH && i + 1 < s.len() && s[i + 1] == SLASH {
        lemma_comment_body(s, i + 2);
    } else if c == QUOTE {
        lemma_string_body(s, i + 1);
    } else if spec_is_digit(c) {
        let d = digit_run_len(s, i) as int;
        lemma_digit_run(s, i);
        if i + d + 1 < s.len() && s[i + d] == DOT && spec_is_digit(s[i + d + 1]) {
            lemma_digit_run(s, i + d + 1);
        }
    } else if spec_is_alpha(c) {
        lemma_alnum_run(s, i);
    }
}

/// Law: the line counter advances exactly once per newline byte. A scan that
/// starts at position `i` on line `line` ends on `line` plus the number of
/// newline bytes at or after `i`.
pub proof fn lemma_scan_from_end_line(s: Seq<u8>, i: int, line: int)
    requires
        0 <= i,
    ensures
        scan_from(s, i, line).end_line == line + newline_count(s, i, s.len() as int),
    decreases s.len() - i,
{
    let len = s.len() as int;
    if i < len {
        let st = scan_step(s, i, line);
        lemma_scan_step_next(s, i, line);
        let j = st.next;
        lemma_scan_from_end_line(s, j, st.line);
        lemma_newline_count_split(s, i, j, len);
        let c = s[i];
        if c == SLASH && i + 1 < s.len() && s[i + 1] == SLASH {
            lemma_comment_body(s, i + 2);
            assert(newline_count(s, i + 2, j) == 0) by {
                lemma_newline_count_none(s, i + 2, j);
            }
            assert(newline_count(s, i, i) == 0);
            assert(newline_count(s, i, i + 1) == 0);
            assert(newline_count(s, i, i + 2) == 0);
            lemma_newline_count_split(s, i, i + 2, j);
        } else if c == QUOTE {
            let body = string_body_len(s, i + 1) as int;
            lemma_string_body(s, i + 1);
            assert(newline_count(s, i, i) == 0);
            if i + 1 + body < len {
                // the opening and closing quotes are not newlines
                assert(newline_count(s, i, i + 1) == 0);
                lemma_newline_count_split(s, i, i + 1, i + 1 + body);
                lemma_newline_count_split(s, i, i + 1 + body, i + 2 + body);
            } else {
                assert(newline_count(s, i, i + 1) == 0);
                lemma_newline_count_split(s, i, i + 1, len);
            }
        } else if spec_is_digit(c) {
            let n = number_len(s, i) as int;
            let d = digit_run_len(s, i) as int;
            lemma_digit_run(s, i);
            if i + d + 1 < len && s[i + d] == DOT && spec_is_digit(s[i + d + 1]) {
                lemma_digit_run(s, i + d + 1);
            }
            assert(newline_count(s, i, j) == 0) by {
                lemma_newline_count_none(s, i, j);
            }
        } else if spec_is_alpha(c) {
            lemma_alnum_run(s, i);
            assert(newline_count(s, i, j) == 0) by {
                lemma_newline_count_none(s, i, j);
            }
        } else {
            // a single byte was consumed; only a newline byte raises the line
            assert(newline_count(s, i, i) == 0);
            assert(newline_count(s, i, i + 1) == if s[i] == NEWLINE { 1int } else { 0int });
            if j == i + 2 {
                assert(newline_count(s, i, i + 2) == 0);
            }
        }
    }
}

/// Law: the scan of the source body never yields the end-of-input sentinel;
/// `Eof` enters the stream only as the single token the driver appends, so a
/// full token stream holds exactly one `Eof`, at its end.
pub proof fn lemma_scan_from_no_eof(s: Seq<u8>, i: int, line: int)
    ensures
        forall|k: int|
            0 <= k < scan_from(s, i, line).tokens.len() ==> #[trigger] scan_from(
                s,
                i,
                line,
            ).tokens[k].kind != TokenTypeView::Eof,
    decreases s.len() - i,
{
    if 0 <= i < s.len() {
        let st = scan_step(s, i, line);
        let j = if st.next <= s.len() {
            st.next
        } else {
            s.len() as int
        };
        lemma_scan_from_no_eof(s, j, st.line);
        assert(match st.token {
            Some(t) => t.kind != TokenTypeView::Eof,
            None => true,
        });
    }
}

} // verus!
