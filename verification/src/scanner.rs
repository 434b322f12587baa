//! The scanner: a cursor over a source buffer producing the token stream.
//!
//! `scan_tokens` is proved to produce exactly the token sequence, diagnostics
//! and final line of the mathematical model in [`crate::model`].

use vstd::prelude::*;

use crate::model::{
    alnum_run_len, comment_body_len, digit_run_len, keyword_token, newline_count, number_len,
    opt_seq, scan_from, scan_step, string_body_len,
};
use crate::token::{ErrorKind, ErrorView, ScanError, Token, TokenType, TokenTypeView, TokenView};
use crate::utils::{
    is_alpha, is_alphanumeric, is_digit, BANG, CARRIAGE_RETURN, COMMA, DOT, EQUALS, GREATER,
    LEFT_BRACE, LEFT_PAREN, LESS, LOWER_A, LOWER_C, LOWER_D, LOWER_E, LOWER_F, LOWER_H, LOWER_I,
    LOWER_L, LOWER_N, LOWER_O, LOWER_P, LOWER_R, LOWER_S, LOWER_T, LOWER_U, LOWER_V, LOWER_W,
    MINUS, NEWLINE, PLUS, QUOTE, RIGHT_BRACE, RIGHT_PAREN, SEMICOLON, SLASH, SPACE, STAR, TAB,
};

verus! {

/// The spelling equals the two given bytes.
fn eq2(text: &Vec<u8>, a: u8, b: u8) -> (r: bool)
    ensures
        r == (text@ == seq![a, b]),
{
    let r = text.len() == 2 && text[0] == a && text[1] == b;
    proof {
        if r {
            assert(text@ =~= seq![a, b]);
        }
    }
    r
}

/// The spelling equals the three given bytes.
fn eq3(text: &Vec<u8>, a: u8, b: u8, c: u8) -> (r: bool)
    ensures
        r == (text@ == seq![a, b, c]),
{
    let r = text.len() == 3 && text[0] == a && text[1] == b && text[2] == c;
    proof {
        if r {
            assert(text@ =~= seq![a, b, c]);
        }
    }
    r
}

/// The spelling equals the four given bytes.
fn eq4(text: &Vec<u8>, a: u8, b: u8, c: u8, d: u8) -> (r: bool)
    ensures
        r == (text@ == seq![a, b, c, d]),
{
    let r = text.len() == 4 && text[0] == a && text[1] == b && text[2] == c && text[3] == d;
    proof {
        if r {
            assert(text@ =~= seq![a, b, c, d]);
        }
    }
    r
}

/// The spelling equals the five given bytes.
fn eq5(text: &Vec<u8>, a: u8, b: u8, c: u8, d: u8, e: u8) -> (r: bool)
    ensures
        r == (text@ == seq![a, b, c, d, e]),
{
    let r = text.len() == 5 && text[0] == a && text[1] == b && text[2] == c && text[3] == d
        && text[4] == e;
    proof {
        if r {
            assert(text@ =~= seq![a, b, c, d, e]);
        }
    }
    r
}

/// The spelling equals the six given bytes.
fn eq6(text: &Vec<u8>, a: u8, b: u8, c: u8, d: u8, e: u8, f: u8) -> (r: bool)
    ensures
        r == (text@ == seq![a, b, c, d, e, f]),
{
    let r = text.len() == 6 && text[0] == a && text[1] == b && text[2] == c && text[3] == d
        && text[4] == e && text[5] == f;
    proof {
        if r {
            assert(text@ =~= seq![a, b, c, d, e, f]);
        }
    }
    r
}

/// The keyword table: the reserved kind a completed identifier spelling maps
/// to, or `None` when the spelling is not reserved.
fn keyword(text: &Vec<u8>) -> (r: Option<TokenType>)
    ensures
        ({
            let reserved = keyword_token(text@);
            match r {
                Some(kind) => reserved == Some(kind@),
                None => reserved is None,
            }
        }),
{
    if eq3(text, LOWER_A, LOWER_N, LOWER_D) {
        Some(TokenType::And)
    } else if eq5(text, LOWER_C, LOWER_L, LOWER_A, LOWER_S, LOWER_S) {
        Some(TokenType::Class)
    } else if eq4(text, LOWER_E, LOWER_L, LOWER_S, LOWER_E) {
        Some(TokenType::Else)
    } else if eq5(text, LOWER_F, LOWER_A, LOWER_L, LOWER_S, LOWER_E) {
        Some(TokenType::False)
    } else if eq3(text, LOWER_F, LOWER_O, LOWER_R) {
        Some(TokenType::For)
    } else if eq3(text, LOWER_F, LOWER_U, LOWER_N) {
        Some(TokenType::Fun)
    } else if eq2(text, LOWER_I, LOWER_F) {
        Some(TokenType::If)
    } else if eq3(text, LOWER_N, LOWER_I, LOWER_L) {
        Some(TokenType::Nil)
    } else if eq2(text, LOWER_O, LOWER_R) {
        Some(TokenType::Or)
    } else if eq5(text, LOWER_P, LOWER_R, LOWER_I, LOWER_N, LOWER_T) {
        Some(TokenType::Print)
    } else if eq6(text, LOWER_R, LOWER_E, LOWER_T, LOWER_U, LOWER_R, LOWER_N) {
        Some(TokenType::Return)
    } else if eq5(text, LOWER_S, LOWER_U, LOWER_P, LOWER_E, LOWER_R) {
        Some(TokenType::Super)
    } else if eq4(text, LOWER_T, LOWER_H, LOWER_I, LOWER_S) {
        Some(TokenType::This)
    } else if eq4(text, LOWER_T, LOWER_R, LOWER_U, LOWER_E) {
        Some(TokenType::True)
    } else if eq3(text, LOWER_V, LOWER_A, LOWER_R) {
        Some(TokenType::Var)
    } else if eq5(text, LOWER_W, LOWER_H, LOWER_I, LOWER_L, LOWER_E) {
        Some(TokenType::While)
    } else {
        None
    }
}

/// A cursor over a source buffer. `start` is the offset of the token being
/// recognized, `current` the offset of the next unread byte, and `line` the
/// 1-based line counter, advanced exactly once per newline byte consumed.
/// Diagnostics for malformed constructs accumulate in `errors`.
pub struct Scanner {
    pub line: usize,
    pub start: usize,
    pub current: usize,
    pub source: Vec<u8>,
    pub errors: Vec<ScanError>,
}

impl Scanner {
    /// The cursor sits inside the buffer, the line counter is 1-based, and a
    /// line increment per remaining byte still fits in `usize`.
    pub open spec fn wf(self) -> bool {
        &&& self.start <= self.current <= self.source@.len()
        &&& self.source@.len() < usize::MAX
        &&& 1 <= self.line
        &&& self.line + self.source@.len() - self.current <= usize::MAX
    }

    /// A fresh scan over `source`: cursor at the first byte, line counter 1,
    /// no diagnostics yet.
    pub fn new(source: Vec<u8>) -> (scanner: Scanner)
        requires
            source@.len() < usize::MAX,
        ensures
            scanner.wf(),
            scanner.source == source,
            scanner.line == 1,
            scanner.start == 0,
            scanner.current == 0,
            scanner.errors@ == Seq::<ScanError>::empty(),
    {
        Scanner { line: 1, start: 0, current: 0, source, errors: Vec::new() }
    }

    /// The cursor has passed the last byte of the source.
    fn is_at_end(&self) -> (r: bool)
        ensures
            r == (self.current >= self.source@.len()),
    {
        self.current >= self.source.len()
    }

    /// Consume and return the byte at `current`; callers must first rule out
    /// the end of input.
    fn advance(&mut self) -> (ch: u8)
        requires
            old(self).current < old(self).source@.len(),
            old(self).source@.len() < usize::MAX,
        ensures
            ch == old(self).source@[old(self).current as int],
            final(self).current == old(self).current + 1,
            final(self).source == old(self).source,
            final(self).line == old(self).line,
            final(self).start == old(self).start,
            final(self).errors == old(self).errors,
    {
        let ch = self.source[self.current];
        self.current = self.current + 1;
        ch
    }

    /// The byte at `current`, without consuming it.
    fn peek(&self) -> (r: Option<u8>)
        ensures
            r == (if self.current < self.source@.len() {
                Some(self.source@[self.current as int])
            } else {
                None::<u8>
            }),
    {
        if self.current < self.source.len() {
            Some(self.source[self.current])
        } else {
            None
        }
    }

    /// The byte at `current + 1`, without consuming anything.
    fn peek_next(&self) -> (r: Option<u8>)
        requires
            self.current < usize::MAX,
        ensures
            r == (if self.current + 1 < self.source@.len() {
                Some(self.source@[self.current + 1])
            } else {
                None::<u8>
            }),
    {
        if self.current + 1 < self.source.len() {
            Some(self.source[self.current + 1])
        } else {
            None
        }
    }

    /// Consume the next byte only if it equals `expected`.
    fn match_next(&mut self, expected: u8) -> (r: bool)
        requires
            old(self).source@.len() < usize::MAX,
        ensures
            r == (old(self).current < old(self).source@.len() && old(self).source@[old(
                self,
            ).current as int] == expected),
            final(self).current == old(self).current + (if r {
                1int
            } else {
                0int
            }),
            final(self).source == old(self).source,
            final(self).line == old(self).line,
            final(self).start == old(self).start,
            final(self).errors == old(self).errors,
    {
        if self.is_at_end() {
            return false;
        }
        if self.source[self.current] != expected {
            return false;
        }
        self.current = self.current + 1;
        true
    }

    /// Copy `source[from..to]` into a fresh buffer.
    fn copy_bytes(&self, from: usize, to: usize) -> (r: Vec<u8>)
        requires
            from <= to <= self.source@.len(),
        ensures
            r@ == self.source@.subrange(from as int, to as int),
    {
        let mut out: Vec<u8> = Vec::new();
        let mut k: usize = from;
        proof {
            assert(out@ =~= self.source@.subrange(from as int, from as int));
        }
        while k < to
            invariant
                from <= k <= to <= self.source@.len(),
                out@ == self.source@.subrange(from as int, k as int),
            decreases to - k,
        {
            out.push(self.source[k]);
            k = k + 1;
            proof {
                assert(out@ =~= self.source@.subrange(from as int, k as int));
            }
        }
        out
    }

    /// Build a token of `kind` covering `source[start..current]`, at the
    /// current line.
    fn new_token(&self, kind: TokenType) -> (tok: Token)
        requires
            self.start <= self.current <= self.source@.len(),
        ensures
            tok@ == (TokenView {
                kind: kind@,
                lexeme: Some(self.source@.subrange(self.start as int, self.current as int)),
                line: self.line as int,
            }),
    {
        let lexeme = self.copy_bytes(self.start, self.current);
        Token { kind, lexeme: Some(lexeme), line: self.line }
    }

    /// Fold a one-byte lookahead: consume `next` and yield `one` if it is the
    /// next byte, else leave the cursor and yield `two`.
    fn match_or(&mut self, next: u8, one: TokenType, two: TokenType) -> (tok: Token)
        requires
            old(self).start <= old(self).current <= old(self).source@.len(),
            old(self).source@.len() < usize::MAX,
        ensures
            final(self).source == old(self).source,
            final(self).line == old(self).line,
            final(self).start == old(self).start,
            final(self).errors == old(self).errors,
            ({
                let matched = old(self).current < old(self).source@.len() && old(self).source@[old(
                    self,
                ).current as int] == next;
                &&& final(self).current == old(self).current + (if matched {
                    1int
                } else {
                    0int
                })
                &&& tok@ == (TokenView {
                    kind: if matched {
                        one@
                    } else {
                        two@
                    },
                    lexeme: Some(
                        old(self).source@.subrange(
                            old(self).start as int,
                            final(self).current as int,
                        ),
                    ),
                    line: old(self).line as int,
                })
            }),
    {
        let kind = if self.match_next(next) {
            one
        } else {
            two
        };
        self.new_token(kind)
    }

    /// The string sub-scan, entered after the opening quote was consumed.
    /// Returns the text strictly between the quotes, or `None` when the input
    /// ends before a closing quote; every newline consumed advances the line
    /// counter.
    fn scan_string(&mut self) -> (r: Option<Vec<u8>>)
        requires
            old(self).wf(),
            old(self).start < old(self).source@.len(),
            old(self).current == old(self).start + 1,
            old(self).source@[old(self).start as int] == QUOTE,
        ensures
            final(self).wf(),
            final(self).source == old(self).source,
            final(self).start == old(self).start,
            final(self).errors == old(self).errors,
            ({
                let s = old(self).source@;
                let b0 = old(self).start + 1;
                let body = string_body_len(s, b0 as int) as int;
                &&& final(self).line == old(self).line + newline_count(s, b0 as int, b0 + body)
                &&& if b0 + body < s.len() {
                    &&& final(self).current == b0 + body + 1
                    &&& r matches Some(v) && v@ == s.subrange(b0 as int, b0 + body)
                } else {
                    &&& final(self).current == s.len()
                    &&& r is None
                }
            }),
    {
        let ghost s = self.source@;
        let ghost b0 = self.start as int + 1;
        while self.current < self.source.len() && self.source[self.current] != QUOTE
            invariant
                self.wf(),
                self.source == old(self).source,
                self.source@ == s,
                self.start == old(self).start,
                self.errors == old(self).errors,
                b0 <= self.current <= s.len(),
                string_body_len(s, b0) == self.current - b0 + string_body_len(
                    s,
                    self.current as int,
                ),
                self.line == old(self).line + newline_count(s, b0, self.current as int),
            decreases s.len() - self.current,
        {
            if self.source[self.current] == NEWLINE {
                self.line = self.line + 1;
            }
            self.current = self.current + 1;
        }
        if self.is_at_end() {
            return None;
        }
        // The closing quote.
        let _ = self.advance();
        let value = self.copy_bytes(self.start + 1, self.current - 1);
        Some(value)
    }

    /// The number sub-scan, entered after the first digit was consumed: a
    /// maximal digit run, then a fractional part only when a dot is followed
    /// by a further digit. Returns the exact matched text.
    fn scan_number(&mut self) -> (text: Vec<u8>)
        requires
            old(self).wf(),
            old(self).start < old(self).source@.len(),
            old(self).current == old(self).start + 1,
            crate::utils::spec_is_digit(old(self).source@[old(self).start as int]),
        ensures
            final(self).wf(),
            final(self).source == old(self).source,
            final(self).start == old(self).start,
            final(self).line == old(self).line,
            final(self).errors == old(self).errors,
            final(self).current == old(self).start + number_len(
                old(self).source@,
                old(self).start as int,
            ),
            text@ == old(self).source@.subrange(old(self).start as int, final(self).current as int),
    {
        let ghost s = self.source@;
        let ghost i0 = self.start as int;
        while self.current < self.source.len() && is_digit(self.source[self.current])
            invariant
                self.wf(),
                self.source == old(self).source,
                self.source@ == s,
                self.start == old(self).start,
                self.line == old(self).line,
                self.errors == old(self).errors,
                i0 < self.current <= s.len(),
                digit_run_len(s, i0) == self.current - i0 + digit_run_len(s, self.current as int),
            decreases s.len() - self.current,
        {
            self.current = self.current + 1;
        }
        let ghost d = digit_run_len(s, i0) as int;
        assert(self.current == i0 + d);
        let dot_then_digit = match (self.peek(), self.peek_next()) {
            (Some(value), Some(next)) => value == DOT && is_digit(next),
            _ => false,
        };
        if dot_then_digit {
            // The dot.
            let _ = self.advance();
            let ghost f0 = self.current as int;
            while self.current < self.source.len() && is_digit(self.source[self.current])
                invariant
                    self.wf(),
                    self.source == old(self).source,
                    self.source@ == s,
                    self.start == old(self).start,
                    self.line == old(self).line,
                    self.errors == old(self).errors,
                    f0 <= self.current <= s.len(),
                    digit_run_len(s, f0) == self.current - f0 + digit_run_len(
                        s,
                        self.current as int,
                    ),
                decreases s.len() - self.current,
            {
                self.current = self.current + 1;
            }
            assert(self.current == f0 + digit_run_len(s, f0));
        }
        self.copy_bytes(self.start, self.current)
    }

    /// The identifier sub-scan, entered after its first byte was consumed:
    /// maximal munch over letters, digits and underscores. Returns the exact
    /// matched text.
    fn scan_identifier(&mut self) -> (text: Vec<u8>)
        requires
            old(self).wf(),
            old(self).start < old(self).source@.len(),
            old(self).current == old(self).start + 1,
            crate::utils::spec_is_alphanumeric(old(self).source@[old(self).start as int]),
        ensures
            final(self).wf(),
            final(self).source == old(self).source,
            final(self).start == old(self).start,
            final(self).line == old(self).line,
            final(self).errors == old(self).errors,
            final(self).current == old(self).start + alnum_run_len(
                old(self).source@,
                old(self).start as int,
            ),
            text@ == old(self).source@.subrange(old(self).start as int, final(self).current as int),
    {
        let ghost s = self.source@;
        let ghost i0 = self.start as int;
        while self.current < self.source.len() && is_alphanumeric(self.source[self.current])
            invariant
                self.wf(),
                self.source == old(self).source,
                self.source@ == s,
                self.start == old(self).start,
                self.line == old(self).line,
                self.errors == old(self).errors,
                i0 < self.current <= s.len(),
                alnum_run_len(s, i0) == self.current - i0 + alnum_run_len(s, self.current as int),
            decreases s.len() - self.current,
        {
            self.current = self.current + 1;
        }
        self.copy_bytes(self.start, self.current)
    }

    /// One dispatch step: consume at least one byte at `start == current`,
    /// classify it, and yield the token it forms, if any; each malformed
    /// construct is recorded in `errors` instead of halting the scan. The
    /// result is exactly what the model's `scan_step` says.
    fn scan_token(&mut self) -> (tok: Option<Token>)
        requires
            old(self).wf(),
            old(self).current < old(self).source@.len(),
            old(self).start == old(self).current,
        ensures
            final(self).wf(),
            final(self).source == old(self).source,
            final(self).start == old(self).start,
            ({
                let st = scan_step(
                    old(self).source@,
                    old(self).current as int,
                    old(self).line as int,
                );
                &&& final(self).current as int == st.next
                &&& final(self).line as int == st.line
                &&& (match (tok, st.token) {
                    (Some(t), Some(tv)) => t@ == tv,
                    (None, None) => true,
                    _ => false,
                })
                &&& (match st.error {
                    Some(ev) => final(self).errors@.map_values(|e: ScanError| e@) == old(
                        self,
                    ).errors@.map_values(|e: ScanError| e@).push(ev),
                    None => final(self).errors == old(self).errors,
                })
            }),
    {
        let ghost s = self.source@;
        let ghost i0 = self.current as int;
        let ghost l0 = self.line as int;
        let ch = self.advance();
        if ch == LEFT_PAREN {
            Some(self.new_token(TokenType::LeftParen))
        } else if ch == RIGHT_PAREN {
            Some(self.new_token(TokenType::RightParen))
        } else if ch == LEFT_BRACE {
            Some(self.new_token(TokenType::LeftBrace))
        } else if ch == RIGHT_BRACE {
            Some(self.new_token(TokenType::RightBrace))
        } else if ch == COMMA {
            Some(self.new_token(TokenType::Comma))
        } else if ch == DOT {
            Some(self.new_token(TokenType::Dot))
        } else if ch == MINUS {
            Some(self.new_token(TokenType::Minus))
        } else if ch == PLUS {
            Some(self.new_token(TokenType::Plus))
        } else if ch == SEMICOLON {
            Some(self.new_token(TokenType::Semicolon))
        } else if ch == STAR {
            Some(self.new_token(TokenType::Star))
        } else if ch == BANG {
            Some(self.match_or(EQUALS, TokenType::BangEqual, TokenType::Bang))
        } else if ch == EQUALS {
            Some(self.match_or(EQUALS, TokenType::EqualEqual, TokenType::Equal))
        } else if ch == LESS {
            Some(self.match_or(EQUALS, TokenType::LessEqual, TokenType::Less))
        } else if ch == GREATER {
            Some(self.match_or(EQUALS, TokenType::GreaterEqual, TokenType::Greater))
        } else if ch == SLASH {
            // A line comment runs through the end of the line, exclusive, and
            // yields no token.
            if self.match_next(SLASH) {
                while self.current < self.source.len() && self.source[self.current] != NEWLINE
                    invariant
                        self.wf(),
                        self.source == old(self).source,
                        self.source@ == s,
                        self.start == old(self).start,
                        self.line == old(self).line,
                        self.errors == old(self).errors,
                        i0 + 2 <= self.current <= s.len(),
                        comment_body_len(s, i0 + 2) == self.current - (i0 + 2) + comment_body_len(
                            s,
                            self.current as int,
                        ),
                    decreases s.len() - self.current,
                {
                    self.current = self.current + 1;
                }
                None
            } else {
                Some(self.new_token(TokenType::Slash))
            }
        } else if ch == SPACE || ch == CARRIAGE_RETURN || ch == TAB {
            None
        } else if ch == NEWLINE {
            self.line = self.line + 1;
            None
        } else if ch == QUOTE {
            let line_start = self.line;
            proof {
                crate::model::lemma_string_body(s, i0 + 1);
            }
            match self.scan_string() {
                Some(value) => {
                    let lexeme = self.copy_bytes(self.start, self.current);
                    Some(
                        Token {
                            kind: TokenType::String(value),
                            lexeme: Some(lexeme),
                            line: line_start,
                        },
                    )
                },
                None => {
                    self.errors.push(
                        ScanError { kind: ErrorKind::UnterminatedString, line: line_start },
                    );
                    proof {
                        assert(self.errors@.map_values(|e: ScanError| e@) =~= old(
                            self,
                        ).errors@.map_values(|e: ScanError| e@).push(
                            ErrorView { kind: ErrorKind::UnterminatedString, line: l0 },
                        ));
                    }
                    None
                },
            }
        } else if is_digit(ch) {
            let text = self.scan_number();
            Some(self.new_token(TokenType::Number(text)))
        } else if is_alpha(ch) {
            let text = self.scan_identifier();
            match keyword(&text) {
                Some(reserved) => Some(self.new_token(reserved)),
                None => Some(self.new_token(TokenType::Identifier(text))),
            }
        } else {
            self.errors.push(ScanError { kind: ErrorKind::UnexpectedCharacter, line: self.line });
            proof {
                assert(self.errors@.map_values(|e: ScanError| e@) =~= old(
                    self,
                ).errors@.map_values(|e: ScanError| e@).push(
                    ErrorView { kind: ErrorKind::UnexpectedCharacter, line: l0 },
                ));
            }
            None
        }
    }

    /// Scan the whole remaining source. The result is exactly the model's
    /// token sequence, terminated by a single end-of-input sentinel on the
    /// line the scan ends on; exactly the model's diagnostics are appended to
    /// `errors`; and the line counter advances once per newline byte consumed.
    pub fn scan_tokens(&mut self) -> (tokens: Vec<Token>)
        requires
            old(self).wf(),
        ensures
            final(self).wf(),
            final(self).source == old(self).source,
            final(self).current == final(self).source@.len(),
            ({
                let out = scan_from(
                    old(self).source@,
                    old(self).current as int,
                    old(self).line as int,
                );
                &&& tokens@.map_values(|t: Token| t@) == out.tokens.push(
                    TokenView { kind: TokenTypeView::Eof, lexeme: None, line: out.end_line },
                )
                &&& final(self).line as int == out.end_line
                &&& final(self).errors@.map_values(|e: ScanError| e@) == old(
                    self,
                ).errors@.map_values(|e: ScanError| e@) + out.errors
            }),
            tokens@.len() >= 1,
            tokens@.last().kind == TokenType::Eof,
            tokens@.last().lexeme is None,
            tokens@.last().line == final(self).line,
            final(self).line as int == old(self).line + newline_count(
                old(self).source@,
                old(self).current as int,
                old(self).source@.len() as int,
            ),
    {
        let mut tokens: Vec<Token> = Vec::new();
        let ghost s = self.source@;
        let ghost c0 = self.current as int;
        let ghost l0 = self.line as int;
        let ghost e0 = self.errors@;
        let ghost mut produced: Seq<ErrorView> = Seq::empty();
        proof {
            assert(scan_from(s, c0, l0).tokens =~= tokens@.map_values(|t: Token| t@) + scan_from(
                s,
                c0,
                l0,
            ).tokens);
            assert(scan_from(s, c0, l0).errors =~= produced + scan_from(s, c0, l0).errors);
            assert(self.errors@.map_values(|e: ScanError| e@) =~= e0.map_values(|e: ScanError| e@)
                + produced);
        }
        while !self.is_at_end()
            invariant
                self.wf(),
                self.source == old(self).source,
                self.source@ == s,
                self.start <= self.current,
                scan_from(s, c0, l0).tokens == tokens@.map_values(|t: Token| t@) + scan_from(
                    s,
                    self.current as int,
                    self.line as int,
                ).tokens,
                scan_from(s, c0, l0).errors == produced + scan_from(
                    s,
                    self.current as int,
                    self.line as int,
                ).errors,
                self.errors@.map_values(|e: ScanError| e@) == e0.map_values(|e: ScanError| e@)
                    + produced,
                scan_from(s, c0, l0).end_line == scan_from(
                    s,
                    self.current as int,
                    self.line as int,
                ).end_line,
            decreases s.len() - self.current,
        {
            self.start = self.current;
            let ghost cur0 = self.current as int;
            let ghost ln0 = self.line as int;
            let ghost toks0 = tokens@;
            let tok = self.scan_token();
            if let Some(token) = tok {
                tokens.push(token);
            }
            proof {
                let st = scan_step(s, cur0, ln0);
                let rest = scan_from(s, self.current as int, self.line as int);
                assert(scan_from(s, cur0, ln0).tokens == opt_seq(st.token) + rest.tokens);
                assert(scan_from(s, cur0, ln0).errors == opt_seq(st.error) + rest.errors);
                assert(scan_from(s, cur0, ln0).end_line == rest.end_line);
                match st.token {
                    Some(tv) => {
                        assert(tokens@.map_values(|t: Token| t@) =~= toks0.map_values(
                            |t: Token| t@,
                        ).push(tv));
                        assert(toks0.map_values(|t: Token| t@) + (opt_seq(st.token) + rest.tokens)
                            =~= tokens@.map_values(|t: Token| t@) + rest.tokens);
                    },
                    None => {
                        assert(toks0.map_values(|t: Token| t@) + (opt_seq(st.token) + rest.tokens)
                            =~= tokens@.map_values(|t: Token| t@) + rest.tokens);
                    },
                }
                let produced0 = produced;
                produced = produced + opt_seq(st.error);
                assert(produced0 + (opt_seq(st.error) + rest.errors) =~= produced + rest.errors);
                match st.error {
                    Some(ev) => {
                        assert(self.errors@.map_values(|e: ScanError| e@) =~= e0.map_values(
                            |e: ScanError| e@,
                        ) + produced);
                    },
                    None => {
                        assert(produced =~= produced0);
                    },
                }
            }
        }
        proof {
            assert(scan_from(s, self.current as int, self.line as int).tokens =~= Seq::<
                TokenView,
            >::empty());
            assert(scan_from(s, self.current as int, self.line as int).errors =~= Seq::<
                ErrorView,
            >::empty());
            assert(scan_from(s, c0, l0).tokens =~= tokens@.map_values(|t: Token| t@));
            assert(scan_from(s, c0, l0).errors =~= produced);
            crate::model::lemma_scan_from_end_line(s, c0, l0);
        }
        let eof = Token { kind: TokenType::Eof, lexeme: None, line: self.line };
        tokens.push(eof);
        proof {
            let out = scan_from(s, c0, l0);
            assert(tokens@.map_values(|t: Token| t@) =~= out.tokens.push(
                TokenView { kind: TokenTypeView::Eof, lexeme: None, line: out.end_line },
            ));
        }
        tokens
    }
}

} // verus!
