//! The tokenizer: turns source text into a sequence of classified tokens,
//! tracking indentation blocks and bracket nesting.
//!
//! The scanner is specified by a small-step state machine over `LexerV`, the
//! mathematical model of a `Lexer`. Each executable helper is proved equal to
//! its specification twin, and `collect_tokens` is proved equal to running
//! the machine to the end of the input (`spec_tokenize`).

use vstd::prelude::*;

use crate::diag::Diagnostic;
use crate::diag::DiagnosticG;
use crate::diag::DiagnosticV;
use crate::numeric::num_parse;
use crate::numeric::parsed_number_of;
use crate::token::from_kind_v;
use crate::token::Token;
use crate::token::TokenG;
use crate::token::TokenKind;
use crate::token::TokenKindG;
use crate::token::TokenKindV;
use crate::token::TokenV;

verus! {

/// Whether a character beyond ASCII is whitespace, as `char::is_whitespace`
/// decides it.
pub uninterp spec fn ws_char_ext(c: char) -> bool;

/// Whether a character beyond ASCII is alphabetic, as `char::is_alphabetic`
/// decides it.
pub uninterp spec fn alpha_char_ext(c: char) -> bool;

/// Whether a character beyond ASCII is alphanumeric, as
/// `char::is_alphanumeric` decides it.
pub uninterp spec fn alnum_char_ext(c: char) -> bool;

/// Whether a character is whitespace, as `char::is_whitespace` decides it:
/// within ASCII these are space, tab, line feed, vertical tab, form feed and
/// carriage return.
pub open spec fn ws_char(c: char) -> bool {
    if (c as u32) < 128 {
        c == ' ' || c == '\t' || c == '\n' || c as u32 == 11 || c as u32 == 12 || c == '\r'
    } else {
        ws_char_ext(c)
    }
}

/// Whether a character is alphabetic, as `char::is_alphabetic` decides it:
/// within ASCII these are the upper- and lowercase letters.
pub open spec fn alpha_char(c: char) -> bool {
    if (c as u32) < 128 {
        (65 <= c as u32 <= 90) || (97 <= c as u32 <= 122)
    } else {
        alpha_char_ext(c)
    }
}

/// Whether a character is alphanumeric, as `char::is_alphanumeric` decides
/// it: within ASCII these are the letters and the decimal digits.
pub open spec fn alnum_char(c: char) -> bool {
    if (c as u32) < 128 {
        (65 <= c as u32 <= 90) || (97 <= c as u32 <= 122) || (48 <= c as u32 <= 57)
    } else {
        alnum_char_ext(c)
    }
}

/// Whether a character is an ASCII decimal digit.
pub open spec fn digit_char(c: char) -> bool {
    48 <= c as u32 <= 57
}

/// Relies on `char::is_whitespace`. Whitespace is disjoint from the
/// alphabetic and alphanumeric classes; space, tab, newline and carriage
/// return are whitespace; `#`, quotes, the underscore and the NUL character
/// are not.
#[verifier::external_body]
fn is_ws(c: char) -> (r: bool)
    ensures
        r == ws_char(c),
        (c as u32) >= 128 ==> r == ws_char_ext(c),
        r ==> !alpha_char(c) && !alnum_char(c),
        c == ' ' || c == '\t' || c == '\n' || c == '\r' ==> r,
        c == '#' || c == '"' || c == '\'' || c == '_' || c == '\0' ==> !r,
{
    c.is_whitespace()
}

/// Relies on `char::is_alphabetic`. Alphabetic characters are alphanumeric;
/// digits, the underscore, quotes, `#`, newline and NUL are not alphabetic.
#[verifier::external_body]
fn is_alpha(c: char) -> (r: bool)
    ensures
        r == alpha_char(c),
        (c as u32) >= 128 ==> r == alpha_char_ext(c),
        r ==> alnum_char(c),
        digit_char(c) ==> !r,
        c == '_' || c == '#' || c == '"' || c == '\'' || c == '\n' || c == '\0' ==> !r,
{
    c.is_alphabetic()
}

/// Relies on `char::is_alphanumeric`. Digits are alphanumeric; whitespace,
/// `#`, quotes, the underscore and NUL are not.
#[verifier::external_body]
fn is_alnum(c: char) -> (r: bool)
    ensures
        r == alnum_char(c),
        (c as u32) >= 128 ==> r == alnum_char_ext(c),
        digit_char(c) ==> r,
        c == ' ' || c == '\t' || c == '\n' || c == '#' || c == '"' || c == '\'' || c == '_'
            || c == '\0' ==> !r,
{
    c.is_alphanumeric()
}

/// Whether a character is an ASCII decimal digit.
fn is_digit(c: char) -> (r: bool)
    ensures
        r == digit_char(c),
{
    let u = c as u32;
    48 <= u && u <= 57
}

/// Relies on `String`'s `FromIterator<char>`: the collected string holds
/// exactly the given characters. (The UTF-8 re-encoding cannot be written as
/// a verified loop.)
#[verifier::external_body]
fn chars_to_string(v: &Vec<char>) -> (r: String)
    ensures
        r@ == v@,
{
    v.iter().collect()
}

/// The mathematical model of a tokenizer state.
#[verifier::ext_equal]
pub struct LexerV {
    pub source: Seq<char>,
    pub cursor: int,
    pub tokens: Seq<TokenV>,
    pub line: int,
    pub col: int,
    pub token_line: int,
    pub token_col: int,
    pub at_new_line: bool,
    pub errors: bool,
    pub diags: Seq<DiagnosticV>,
    pub indent_stack: Seq<usize>,
    pub indent_counter: int,
    pub bracket: int,
    pub paren: int,
}

/// The starting state on the given source: cursor at the beginning, no
/// tokens, no errors, the indentation stack holding the sentinel base level.
pub open spec fn lex_init(source: Seq<char>) -> LexerV {
    LexerV {
        source,
        cursor: 0,
        tokens: Seq::empty(),
        line: 0,
        col: 0,
        token_line: 0,
        token_col: 0,
        at_new_line: true,
        errors: false,
        diags: Seq::empty(),
        indent_stack: seq![0usize],
        indent_counter: 0,
        bracket: 0,
        paren: 0,
    }
}

/// Well-formedness of a tokenizer state: the cursor stays inside the source,
/// the location counters are bounded by it, the indentation stack keeps its
/// sentinel, and the machine-limit bound on the source length holds (an
/// indentation width counts at most four per character).
pub open spec fn lv_wf(st: LexerV) -> bool {
    &&& 0 <= st.cursor <= st.source.len()
    &&& st.source.len() * 4 + 4 <= usize::MAX
    &&& 0 <= st.col <= st.cursor
    &&& 0 <= st.line <= st.cursor
    &&& 0 <= st.token_line <= st.cursor
    &&& 0 <= st.token_col <= st.cursor
    &&& st.indent_stack.len() >= 1
    &&& 0 <= st.indent_counter
    &&& st.indent_counter + 1 <= st.indent_stack.len()
    &&& st.indent_stack.len() <= st.line + 2
    &&& 0 <= st.bracket <= st.cursor
    &&& 0 <= st.paren <= st.cursor
}

/// At the start of a logical line the indentation stack has seen at most one
/// width per completed line.
pub open spec fn lv_line_start(st: LexerV) -> bool {
    st.at_new_line ==> st.indent_stack.len() <= st.line + 1
}

/// The character under the cursor, or NUL at the end of the input.
pub open spec fn lv_peek(st: LexerV) -> char {
    if st.cursor >= st.source.len() {
        '\0'
    } else {
        st.source[st.cursor]
    }
}

/// Consuming one character: the cursor and column move, and the
/// start-of-line flag drops.
pub open spec fn lv_advance(st: LexerV) -> LexerV {
    LexerV { cursor: st.cursor + 1, col: st.col + 1, at_new_line: false, ..st }
}

/// Whether the rest of the current line holds nothing but whitespace before
/// its newline, a comment, or the end of the input.
pub open spec fn sp_empty_line(source: Seq<char>, i: int) -> bool
    decreases source.len() - i,
{
    if i < 0 || i >= source.len() {
        true
    } else if source[i] == '\n' || source[i] == '#' {
        true
    } else if ws_char(source[i]) {
        sp_empty_line(source, i + 1)
    } else {
        false
    }
}

/// Skipping whitespace other than newlines.
pub open spec fn sp_skip_ws(st: LexerV) -> LexerV
    decreases st.source.len() - st.cursor,
{
    if st.cursor < st.source.len() && ws_char(lv_peek(st)) && lv_peek(st) != '\n' {
        sp_skip_ws(lv_advance(st))
    } else {
        st
    }
}

/// Skipping to the end of the line (for comments).
pub open spec fn sp_skip_line(st: LexerV) -> LexerV
    decreases st.source.len() - st.cursor,
{
    if st.cursor < st.source.len() && lv_peek(st) != '\n' {
        sp_skip_line(lv_advance(st))
    } else {
        st
    }
}

/// Measuring a line's indentation: a space counts one, a tab four.
pub open spec fn sp_indent_scan(st: LexerV, spaces: int) -> (LexerV, int)
    decreases st.source.len() - st.cursor,
{
    if st.cursor < st.source.len() && (lv_peek(st) == ' ' || lv_peek(st) == '\t') {
        let w = if lv_peek(st) == ' ' {
            1int
        } else {
            4int
        };
        sp_indent_scan(lv_advance(st), spaces + w)
    } else {
        (st, spaces)
    }
}

/// Walking the indentation stack downward from position `j`, emitting one
/// `Dedent` for each distinct enclosing level above the new width; stops at
/// a matching level. When the open-indent counter is exhausted first, the
/// mismatch is an indentation error and the walk reports failure.
pub open spec fn sp_dedent_loop(st: LexerV, j: int, spaces: int, lowest: int) -> (LexerV, bool)
    decreases j,
{
    if j <= 0 {
        (st, true)
    } else {
        let i = st.indent_stack[j - 1] as int;
        if spaces == i {
            (st, true)
        } else if spaces < i && i < lowest {
            if st.indent_counter == 0 {
                let st2 = LexerV {
                    errors: true,
                    diags: st.diags.push(
                        DiagnosticG::IndentationError { line: st.token_line as usize },
                    ),
                    ..st
                };
                (st2, false)
            } else {
                let st2 = LexerV {
                    indent_counter: st.indent_counter - 1,
                    tokens: st.tokens.push(from_kind_v(TokenKindG::Dedent)),
                    ..st
                };
                sp_dedent_loop(st2, j - 1, spaces, i)
            }
        } else {
            sp_dedent_loop(st, j - 1, spaces, lowest)
        }
    }
}

/// Resolving the indentation of a fresh line: equal width pushes the width
/// again; greater width emits one `Indent`; lesser width walks the stack
/// emitting `Dedent`s. On an indentation error the width is not pushed.
pub open spec fn sp_indentation(st: LexerV) -> LexerV {
    let (st1, spaces) = sp_indent_scan(st, 0);
    if spaces == st1.indent_stack.last() as int {
        LexerV { indent_stack: st1.indent_stack.push(spaces as usize), ..st1 }
    } else {
        let st2 = if spaces > st1.indent_stack.last() as int {
            LexerV {
                indent_counter: st1.indent_counter + 1,
                tokens: st1.tokens.push(from_kind_v(TokenKindG::Indent)),
                ..st1
            }
        } else {
            st1
        };
        let (st3, completed) = sp_dedent_loop(
            st2,
            st2.indent_stack.len() as int,
            spaces,
            usize::MAX as int,
        );
        if completed {
            LexerV { indent_stack: st3.indent_stack.push(spaces as usize), ..st3 }
        } else {
            st3
        }
    }
}

/// Scanning the maximal run of alphanumeric or underscore characters.
pub open spec fn sp_word_scan(st: LexerV, lex: Seq<char>) -> (LexerV, Seq<char>)
    decreases st.source.len() - st.cursor,
{
    if st.cursor < st.source.len() && (alnum_char(lv_peek(st)) || lv_peek(st) == '_') {
        sp_word_scan(lv_advance(st), lex.push(lv_peek(st)))
    } else {
        (st, lex)
    }
}

/// Classifying a scanned word against the keyword table; anything else is an
/// identifier. `true`, `false` and `none` are literals.
pub open spec fn kind_of_word(lex: Seq<char>) -> TokenKindV {
    if lex == "func"@ {
        TokenKindG::Func
    } else if lex == "define"@ {
        TokenKindG::Define
    } else if lex == "return"@ {
        TokenKindG::Return
    } else if lex == "continue"@ {
        TokenKindG::Continue
    } else if lex == "break"@ {
        TokenKindG::Break
    } else if lex == "print"@ {
        TokenKindG::Print
    } else if lex == "and"@ {
        TokenKindG::And
    } else if lex == "or"@ {
        TokenKindG::Or
    } else if lex == "not"@ {
        TokenKindG::Not
    } else if lex == "if"@ {
        TokenKindG::If
    } else if lex == "else"@ {
        TokenKindG::Else
    } else if lex == "for"@ {
        TokenKindG::For
    } else if lex == "while"@ {
        TokenKindG::While
    } else if lex == "loop"@ {
        TokenKindG::Loop
    } else if lex == "true"@ {
        TokenKindG::Bool(true)
    } else if lex == "false"@ {
        TokenKindG::Bool(false)
    } else if lex == "none"@ {
        TokenKindG::NoneLit
    } else {
        TokenKindG::Identifier(lex)
    }
}

/// Scanning an identifier or keyword and emitting its token.
pub open spec fn sp_identifier(st: LexerV) -> LexerV {
    let (st1, lex) = sp_word_scan(st, Seq::empty());
    LexerV { tokens: st1.tokens.push(TokenG { kind: kind_of_word(lex), lexeme: lex }), ..st1 }
}

/// Scanning the maximal run of digits, underscores and at most one decimal
/// point.
pub open spec fn sp_num_scan(st: LexerV, lex: Seq<char>, has_period: bool) -> (LexerV, Seq<char>)
    decreases st.source.len() - st.cursor,
{
    if st.cursor < st.source.len() && (digit_char(lv_peek(st)) || lv_peek(st) == '_' || (lv_peek(
        st,
    ) == '.' && !has_period)) {
        sp_num_scan(
            lv_advance(st),
            lex.push(lv_peek(st)),
            has_period || lv_peek(st) == '.',
        )
    } else {
        (st, lex)
    }
}

/// Scanning a numeric literal: the lexeme is converted to its binary64 bit
/// pattern; a lexeme that denotes no number is a lexing error and emits no
/// token.
pub open spec fn sp_number(st: LexerV) -> LexerV {
    let (st1, lex) = sp_num_scan(st, Seq::empty(), false);
    match parsed_number_of(lex) {
        Some(b) => LexerV {
            tokens: st1.tokens.push(TokenG { kind: TokenKindG::Number(b), lexeme: lex }),
            ..st1
        },
        None => LexerV {
            errors: true,
            diags: st1.diags.push(DiagnosticG::InvalidNumber { line: st1.token_line as usize }),
            ..st1
        },
    }
}

/// The character an escape sequence denotes, if it is a recognized escape.
pub open spec fn esc_char(e: char) -> Option<char> {
    match e {
        '"' => Some('"'),
        '\'' => Some('\''),
        '\\' => Some('\\'),
        '{' => Some('{'),
        'n' => Some('\n'),
        'r' => Some('\r'),
        't' => Some('\t'),
        _ => Option::<char>::None,
    }
}

/// Scanning a string literal's body up to a closing quote or the end of the
/// input, resolving backslash escapes; an unrecognized escape keeps the
/// backslash and the following character literally.
pub open spec fn sp_str_scan(st: LexerV, lex: Seq<char>) -> (LexerV, Seq<char>)
    decreases st.source.len() - st.cursor,
{
    if st.cursor >= st.source.len() || lv_peek(st) == '"' || lv_peek(st) == '\'' {
        (st, lex)
    } else {
        let c = lv_peek(st);
        let st2 = lv_advance(st);
        if c == '\\' {
            if st2.cursor >= st2.source.len() {
                (st2, lex)
            } else {
                let e = lv_peek(st2);
                let st3 = lv_advance(st2);
                let lex2 = match esc_char(e) {
                    Some(r) => lex.push(r),
                    None => lex.push('\\').push(e),
                };
                sp_str_scan(st3, lex2)
            }
        } else {
            sp_str_scan(st2, lex.push(c))
        }
    }
}

/// Scanning a string literal, quotes included. Reaching the end of the input
/// before the closing quote is a lexing error, and no token is emitted.
pub open spec fn sp_string(st: LexerV) -> LexerV {
    let st1 = lv_advance(st);
    let (st2, lex) = sp_str_scan(st1, Seq::empty());
    if st2.cursor >= st2.source.len() {
        LexerV {
            errors: true,
            diags: st2.diags.push(
                DiagnosticG::UnterminatedString { line: st2.token_line as usize },
            ),
            ..st2
        }
    } else {
        let st3 = lv_advance(st2);
        LexerV { tokens: st3.tokens.push(TokenG { kind: TokenKindG::StringLit(lex), lexeme: lex }), ..st3 }
    }
}

/// Whether an `=` follows, making a two-character operator.
pub open spec fn sp_eq_follows(st: LexerV) -> bool {
    st.cursor < st.source.len() && st.source[st.cursor] == '='
}

/// Emitting a one- or two-character operator, by one-character lookahead.
pub open spec fn sp_one_or_two(st1: LexerV, one: TokenKindV, two: TokenKindV) -> LexerV {
    if sp_eq_follows(st1) {
        let st2 = lv_advance(st1);
        LexerV { tokens: st2.tokens.push(from_kind_v(two)), ..st2 }
    } else {
        LexerV { tokens: st1.tokens.push(from_kind_v(one)), ..st1 }
    }
}

/// Scanning a symbol: single- and two-character operators, delimiters with
/// their nesting counters, collapsed newlines, and the unknown-symbol error.
pub open spec fn sp_symbol(st: LexerV) -> LexerV {
    let c = lv_peek(st);
    let st1 = lv_advance(st);
    if c == '(' {
        LexerV {
            paren: st1.paren + 1,
            tokens: st1.tokens.push(from_kind_v(TokenKindG::LeftParen)),
            ..st1
        }
    } else if c == ')' {
        let st2 = if st1.paren == 0 {
            LexerV {
                errors: true,
                diags: st1.diags.push(
                    DiagnosticG::UnmatchedParen { line: st1.token_line as usize },
                ),
                ..st1
            }
        } else {
            LexerV { paren: st1.paren - 1, ..st1 }
        };
        LexerV { tokens: st2.tokens.push(from_kind_v(TokenKindG::RightParen)), ..st2 }
    } else if c == '[' {
        LexerV {
            bracket: st1.bracket + 1,
            tokens: st1.tokens.push(from_kind_v(TokenKindG::LeftBracket)),
            ..st1
        }
    } else if c == ']' {
        let st2 = if st1.bracket == 0 {
            LexerV {
                errors: true,
                diags: st1.diags.push(
                    DiagnosticG::UnmatchedBracket { line: st1.token_line as usize },
                ),
                ..st1
            }
        } else {
            LexerV { bracket: st1.bracket - 1, ..st1 }
        };
        LexerV { tokens: st2.tokens.push(from_kind_v(TokenKindG::RightBracket)), ..st2 }
    } else if c == ',' {
        LexerV { tokens: st1.tokens.push(from_kind_v(TokenKindG::Comma)), ..st1 }
    } else if c == '.' {
        LexerV { tokens: st1.tokens.push(from_kind_v(TokenKindG::Period)), ..st1 }
    } else if c == ':' {
        LexerV { tokens: st1.tokens.push(from_kind_v(TokenKindG::Colon)), ..st1 }
    } else if c == '+' {
        sp_one_or_two(st1, TokenKindG::Plus, TokenKindG::PlusEqual)
    } else if c == '-' {
        sp_one_or_two(st1, TokenKindG::Minus, TokenKindG::MinusEqual)
    } else if c == '*' {
        sp_one_or_two(st1, TokenKindG::Star, TokenKindG::StarEqual)
    } else if c == '/' {
        sp_one_or_two(st1, TokenKindG::Slash, TokenKindG::SlashEqual)
    } else if c == '%' {
        sp_one_or_two(st1, TokenKindG::Percent, TokenKindG::PercentEqual)
    } else if c == '^' {
        sp_one_or_two(st1, TokenKindG::Caret, TokenKindG::CaretEqual)
    } else if c == '!' {
        sp_one_or_two(st1, TokenKindG::Bang, TokenKindG::BangEqual)
    } else if c == '=' {
        sp_one_or_two(st1, TokenKindG::Equal, TokenKindG::EqualEqual)
    } else if c == '>' {
        sp_one_or_two(st1, TokenKindG::Greater, TokenKindG::GreaterEqual)
    } else if c == '<' {
        sp_one_or_two(st1, TokenKindG::Less, TokenKindG::LessEqual)
    } else if c == '\n' {
        let st2 = LexerV { at_new_line: true, line: st1.line + 1, col: 0, ..st1 };
        if st2.tokens.len() > 0 && st2.tokens.last().kind == TokenKindG::<Seq<char>>::Newline {
            st2
        } else if st2.tokens.len() == 0 {
            st2
        } else {
            LexerV { tokens: st2.tokens.push(from_kind_v(TokenKindG::Newline)), ..st2 }
        }
    } else {
        LexerV {
            errors: true,
            diags: st1.diags.push(
                DiagnosticG::UnknownSymbol { line: st1.token_line as usize, symbol: c },
            ),
            ..st1
        }
    }
}

/// One full scanning step at the start of the main loop: indentation
/// resolution on a fresh, non-blank line outside any nesting, whitespace
/// skipping, and the dispatch on the next character.
pub open spec fn sp_step(st: LexerV) -> LexerV {
    let st1 = if st.at_new_line && !sp_empty_line(st.source, st.cursor) && st.bracket == 0
        && st.paren == 0 {
        sp_indentation(st)
    } else {
        st
    };
    let st2 = sp_skip_ws(st1);
    if st2.cursor >= st2.source.len() {
        st2
    } else {
        let st3 = LexerV { token_line: st2.line, token_col: st2.col, ..st2 };
        let c = lv_peek(st3);
        if alpha_char(c) || c == '_' {
            sp_identifier(st3)
        } else if digit_char(c) {
            sp_number(st3)
        } else if c == '"' || c == '\'' {
            sp_string(st3)
        } else if c == '#' {
            sp_skip_line(st3)
        } else {
            sp_symbol(st3)
        }
    }
}

/// Running the scanner to the end of the input.
pub open spec fn sp_run(st: LexerV) -> LexerV
    decreases st.source.len() - st.cursor,
{
    if st.cursor >= st.source.len() {
        st
    } else {
        let st2 = sp_step(st);
        if st.source.len() - st.cursor > st2.source.len() - st2.cursor && st2.cursor
            <= st2.source.len() {
            sp_run(st2)
        } else {
            st2
        }
    }
}

/// Emitting `n` closing `Dedent` tokens.
pub open spec fn sp_dedents(st: LexerV, n: int) -> LexerV
    decreases n,
{
    if n <= 0 {
        st
    } else {
        sp_dedents(
            LexerV { tokens: st.tokens.push(from_kind_v(TokenKindG::Dedent)), ..st },
            n - 1,
        )
    }
}

/// The end of the input: a trailing `Newline` unless the token sequence is
/// empty or already ends with one, then one `Dedent` for every still-open
/// `Indent`.
pub open spec fn sp_finish(st: LexerV) -> LexerV {
    let st1 = if st.tokens.len() > 0 && st.tokens.last().kind != TokenKindG::<
        Seq<char>,
    >::Newline {
        LexerV { tokens: st.tokens.push(from_kind_v(TokenKindG::Newline)), ..st }
    } else {
        st
    };
    sp_dedents(st1, st1.indent_counter)
}

/// The complete tokenizer as a function of the source text: the final
/// machine state, holding the token sequence, the sticky error flag and the
/// diagnostics.
pub open spec fn spec_tokenize(source: Seq<char>) -> LexerV {
    sp_finish(sp_run(lex_init(source)))
}

/// The models of a sequence of tokens.
pub open spec fn tokens_deep(s: Seq<Token>) -> Seq<TokenV> {
    Seq::new(s.len(), |i: int| s[i]@)
}

/// The models of a sequence of diagnostics.
pub open spec fn diags_deep(s: Seq<Diagnostic>) -> Seq<DiagnosticV> {
    Seq::new(s.len(), |i: int| s[i]@)
}

pub broadcast proof fn lemma_tokens_deep_push(s: Seq<Token>, t: Token)
    ensures
        #[trigger] tokens_deep(s.push(t)) == tokens_deep(s).push(t@),
{
    assert(tokens_deep(s.push(t)) =~= tokens_deep(s).push(t@));
}

pub broadcast proof fn lemma_diags_deep_push(s: Seq<Diagnostic>, d: Diagnostic)
    ensures
        #[trigger] diags_deep(s.push(d)) == diags_deep(s).push(d@),
{
    assert(diags_deep(s.push(d)) =~= diags_deep(s).push(d@));
}

/// The tokenizer. Localized mutable state: the character cursor, the
/// `(line, column)` location, the start-of-line flag, the indentation stack
/// of seen widths with its counter of open `Indent`s, and the
/// parenthesis/bracket nesting depths.
pub struct Lexer {
    source: Vec<char>,
    cursor: usize,
    tokens: Vec<Token>,
    line: usize,
    column: usize,
    token_line: usize,
    token_col: usize,
    at_new_line: bool,
    /// The sticky error flag: set by every lexical error; the caller must
    /// check it before parsing.
    pub contains_errors: bool,
    /// The accumulated diagnostics, in the order the errors were found.
    pub diagnostics: Vec<Diagnostic>,
    indent_stack: Vec<usize>,
    indent_counter: usize,
    bracket_counter: usize,
    paren_counter: usize,
}

impl View for Lexer {
    type V = LexerV;

    closed spec fn view(&self) -> LexerV {
        LexerV {
            source: self.source@,
            cursor: self.cursor as int,
            tokens: tokens_deep(self.tokens@),
            line: self.line as int,
            col: self.column as int,
            token_line: self.token_line as int,
            token_col: self.token_col as int,
            at_new_line: self.at_new_line,
            errors: self.contains_errors,
            diags: diags_deep(self.diagnostics@),
            indent_stack: self.indent_stack@,
            indent_counter: self.indent_counter as int,
            bracket: self.bracket_counter as int,
            paren: self.paren_counter as int,
        }
    }
}

impl Lexer {
    /// A fresh tokenizer over the given source text. The length bound keeps
    /// the indentation width (at most four per character) within `usize`.
    pub fn new(source: String) -> (r: Lexer)
        requires
            source@.len() * 4 + 4 <= usize::MAX,
        ensures
            r@ == lex_init(source@),
            lv_wf(r@),
    {
        let chars = string_to_chars(&source);
        let mut stack: Vec<usize> = Vec::new();
        stack.push(0);
        let r = Lexer {
            source: chars,
            cursor: 0,
            tokens: Vec::new(),
            line: 0,
            column: 0,
            token_line: 0,
            token_col: 0,
            at_new_line: true,
            contains_errors: false,
            diagnostics: Vec::new(),
            indent_stack: stack,
            indent_counter: 0,
            bracket_counter: 0,
            paren_counter: 0,
        };
        proof {
            assert(tokens_deep(r.tokens@) =~= Seq::<TokenV>::empty());
            assert(diags_deep(r.diagnostics@) =~= Seq::<DiagnosticV>::empty());
            assert(r.indent_stack@ =~= seq![0usize]);
            assert(r@ =~= lex_init(source@));
        }
        r
    }

    /// Discard all scanning state, keeping only the source: the tokenizer is
    /// as if freshly built.
    pub fn reset(&mut self)
        requires
            lv_wf(old(self)@),
        ensures
            final(self)@ == lex_init(old(self)@.source),
            lv_wf(final(self)@),
    {
        self.tokens = Vec::new();
        self.cursor = 0;
        self.line = 0;
        self.column = 0;
        self.token_line = 0;
        self.token_col = 0;
        self.at_new_line = true;
        self.contains_errors = false;
        self.diagnostics = Vec::new();
        let mut stack: Vec<usize> = Vec::new();
        stack.push(0);
        self.indent_stack = stack;
        self.indent_counter = 0;
        self.bracket_counter = 0;
        self.paren_counter = 0;
        proof {
            assert(tokens_deep(self.tokens@) =~= Seq::<TokenV>::empty());
            assert(diags_deep(self.diagnostics@) =~= Seq::<DiagnosticV>::empty());
            assert(self.indent_stack@ =~= seq![0usize]);
            assert(self@ =~= lex_init(old(self)@.source));
        }
    }

    fn reached_end(&self) -> (r: bool)
        ensures
            r == (self@.cursor >= self@.source.len()),
    {
        self.cursor >= self.source.len()
    }

    fn peek(&self) -> (c: char)
        ensures
            c == lv_peek(self@),
    {
        if self.cursor >= self.source.len() {
            '\0'
        } else {
            self.source[self.cursor]
        }
    }

    fn advance(&mut self) -> (c: char)
        requires
            lv_wf(old(self)@),
            old(self)@.cursor < old(self)@.source.len(),
        ensures
            c == lv_peek(old(self)@),
            final(self)@ == lv_advance(old(self)@),
            lv_wf(final(self)@),
    {
        let c = self.peek();
        self.cursor = self.cursor + 1;
        self.column = self.column + 1;
        self.at_new_line = false;
        proof {
            assert(self@ =~= lv_advance(old(self)@));
        }
        c
    }

    fn consume_match(&mut self, case: char) -> (r: bool)
        requires
            lv_wf(old(self)@),
        ensures
            lv_wf(final(self)@),
            ({
                let follows = old(self)@.cursor < old(self)@.source.len() && lv_peek(old(self)@)
                    == case;
                if follows {
                    r && final(self)@ == lv_advance(old(self)@)
                } else {
                    !r && final(self)@ == old(self)@
                }
            }),
    {
        if !self.reached_end() && case == self.peek() {
            self.advance();
            true
        } else {
            false
        }
    }

    fn at_empty_line(&self) -> (r: bool)
        requires
            lv_wf(self@),
        ensures
            r == sp_empty_line(self@.source, self@.cursor),
    {
        let mut cur: usize = self.cursor;
        while cur < self.source.len()
            invariant
                lv_wf(self@),
                self@.cursor <= cur <= self@.source.len(),
                sp_empty_line(self@.source, self@.cursor) == sp_empty_line(
                    self@.source,
                    cur as int,
                ),
            decreases self@.source.len() - cur,
        {
            let c = self.source[cur];
            if c == '\n' || c == '#' {
                return true;
            } else if !is_ws(c) {
                return false;
            }
            cur = cur + 1;
        }
        true
    }

    fn skip_whitespace(&mut self)
        requires
            lv_wf(old(self)@),
        ensures
            final(self)@ == sp_skip_ws(old(self)@),
            lv_wf(final(self)@),
            final(self)@.cursor >= old(self)@.cursor,
            final(self)@.source == old(self)@.source,
            final(self)@.cursor > old(self)@.cursor ==> !final(self)@.at_new_line,
            final(self)@.cursor == old(self)@.cursor ==> final(self)@.at_new_line == old(
                self,
            )@.at_new_line,
            final(self)@.line == old(self)@.line,
    {
        while !self.reached_end() && is_ws(self.peek()) && self.peek() != '\n'
            invariant
                lv_wf(self@),
                self@.source == old(self)@.source,
                self@.cursor >= old(self)@.cursor,
                self@.line == old(self)@.line,
                self@.cursor > old(self)@.cursor ==> !self@.at_new_line,
                self@.cursor == old(self)@.cursor ==> self@ == old(self)@,
                sp_skip_ws(old(self)@) == sp_skip_ws(self@),
            decreases self@.source.len() - self@.cursor,
        {
            self.advance();
        }
    }

    fn skip_line(&mut self)
        requires
            lv_wf(old(self)@),
        ensures
            final(self)@ == sp_skip_line(old(self)@),
            lv_wf(final(self)@),
            final(self)@.cursor >= old(self)@.cursor,
            final(self)@.source == old(self)@.source,
            final(self)@.cursor > old(self)@.cursor ==> !final(self)@.at_new_line,
            final(self)@.cursor == old(self)@.cursor ==> final(self)@.at_new_line == old(
                self,
            )@.at_new_line,
            old(self)@.cursor < old(self)@.source.len() && lv_peek(old(self)@) != '\n'
                ==> final(self)@.cursor > old(self)@.cursor,
    {
        while !self.reached_end() && self.peek() != '\n'
            invariant
                lv_wf(self@),
                self@.source == old(self)@.source,
                self@.cursor >= old(self)@.cursor,
                self@.cursor > old(self)@.cursor ==> !self@.at_new_line,
                self@.cursor == old(self)@.cursor ==> self@ == old(self)@,
                sp_skip_line(old(self)@) == sp_skip_line(self@),
            decreases self@.source.len() - self@.cursor,
        {
            self.advance();
        }
    }
}

/// Relies on `str::chars`: the characters of the string, in order.
#[verifier::external_body]
fn string_to_chars(s: &String) -> (r: Vec<char>)
    ensures
        r@ == s@,
{
    s.chars().collect()
}

/// The character an escape sequence denotes, if recognized.
fn escape_char(e: char) -> (r: Option<char>)
    ensures
        r == esc_char(e),
{
    match e {
        '"' => Some('"'),
        '\'' => Some('\''),
        '\\' => Some('\\'),
        '{' => Some('{'),
        'n' => Some('\n'),
        'r' => Some('\r'),
        't' => Some('\t'),
        _ => None,
    }
}

/// Classify a scanned word against the keyword table.
fn classify_word(s: String) -> (k: TokenKind)
    ensures
        k@ == kind_of_word(s@),
{
    if s == String::from_str("func") {
        TokenKindG::Func
    } else if s == String::from_str("define") {
        TokenKindG::Define
    } else if s == String::from_str("return") {
        TokenKindG::Return
    } else if s == String::from_str("continue") {
        TokenKindG::Continue
    } else if s == String::from_str("break") {
        TokenKindG::Break
    } else if s == String::from_str("print") {
        TokenKindG::Print
    } else if s == String::from_str("and") {
        TokenKindG::And
    } else if s == String::from_str("or") {
        TokenKindG::Or
    } else if s == String::from_str("not") {
        TokenKindG::Not
    } else if s == String::from_str("if") {
        TokenKindG::If
    } else if s == String::from_str("else") {
        TokenKindG::Else
    } else if s == String::from_str("for") {
        TokenKindG::For
    } else if s == String::from_str("while") {
        TokenKindG::While
    } else if s == String::from_str("loop") {
        TokenKindG::Loop
    } else if s == String::from_str("true") {
        TokenKindG::Bool(true)
    } else if s == String::from_str("false") {
        TokenKindG::Bool(false)
    } else if s == String::from_str("none") {
        TokenKindG::NoneLit
    } else {
        TokenKindG::Identifier(s)
    }
}

impl Lexer {
    fn get_identifier(&mut self)
        requires
            lv_wf(old(self)@),
            old(self)@.cursor < old(self)@.source.len(),
            alnum_char(lv_peek(old(self)@)) || lv_peek(old(self)@) == '_',
        ensures
            final(self)@ == sp_identifier(old(self)@),
            lv_wf(final(self)@),
            final(self)@.cursor > old(self)@.cursor,
            final(self)@.source == old(self)@.source,
            !final(self)@.at_new_line,
    {
        broadcast use lemma_tokens_deep_push;

        let mut buf: Vec<char> = Vec::new();
        while !self.reached_end() && (is_alnum(self.peek()) || self.peek() == '_')
            invariant
                lv_wf(self@),
                self@.source == old(self)@.source,
                self@.cursor >= old(self)@.cursor,
                self@.cursor > old(self)@.cursor ==> !self@.at_new_line,
                self@.cursor == old(self)@.cursor ==> self@ == old(self)@,
                sp_word_scan(old(self)@, Seq::empty()) == sp_word_scan(self@, buf@),
            decreases self@.source.len() - self@.cursor,
        {
            let c = self.advance();
            buf.push(c);
        }
        let s = chars_to_string(&buf);
        let lexeme = s.clone();
        let kind = classify_word(s);
        self.tokens.push(Token::new(kind, lexeme));
        proof {
            assert(self@ =~= sp_identifier(old(self)@));
        }
    }

    fn get_number(&mut self)
        requires
            lv_wf(old(self)@),
            old(self)@.cursor < old(self)@.source.len(),
            digit_char(lv_peek(old(self)@)),
        ensures
            final(self)@ == sp_number(old(self)@),
            lv_wf(final(self)@),
            final(self)@.cursor > old(self)@.cursor,
            final(self)@.source == old(self)@.source,
            !final(self)@.at_new_line,
    {
        broadcast use lemma_tokens_deep_push, lemma_diags_deep_push;

        let mut buf: Vec<char> = Vec::new();
        let mut has_period: bool = false;
        while !self.reached_end() && (is_digit(self.peek()) || self.peek() == '_' || (self.peek()
            == '.' && !has_period))
            invariant
                lv_wf(self@),
                self@.source == old(self)@.source,
                self@.cursor >= old(self)@.cursor,
                self@.cursor > old(self)@.cursor ==> !self@.at_new_line,
                self@.cursor == old(self)@.cursor ==> self@ == old(self)@,
                self@.token_line == old(self)@.token_line,
                sp_num_scan(old(self)@, Seq::empty(), false) == sp_num_scan(
                    self@,
                    buf@,
                    has_period,
                ),
            decreases self@.source.len() - self@.cursor,
        {
            if self.peek() == '.' {
                has_period = true;
            }
            let c = self.advance();
            buf.push(c);
        }
        let s = chars_to_string(&buf);
        match num_parse(s.as_str()) {
            Some(b) => {
                self.tokens.push(Token::new(TokenKindG::Number(b), s));
            },
            None => {
                self.contains_errors = true;
                self.diagnostics.push(DiagnosticG::InvalidNumber { line: self.token_line });
            },
        }
        proof {
            assert(self@ =~= sp_number(old(self)@));
        }
    }

    fn get_string(&mut self)
        requires
            lv_wf(old(self)@),
            old(self)@.cursor < old(self)@.source.len(),
        ensures
            final(self)@ == sp_string(old(self)@),
            lv_wf(final(self)@),
            final(self)@.cursor > old(self)@.cursor,
            final(self)@.source == old(self)@.source,
            !final(self)@.at_new_line,
    {
        broadcast use lemma_tokens_deep_push, lemma_diags_deep_push;

        self.advance();
        let ghost st1 = self@;
        let mut buf: Vec<char> = Vec::new();
        while !self.reached_end() && self.peek() != '"' && self.peek() != '\''
            invariant
                lv_wf(self@),
                self@.source == old(self)@.source,
                self@.cursor >= old(self)@.cursor,
                !self@.at_new_line,
                sp_str_scan(st1, Seq::empty()) == sp_str_scan(self@, buf@),
            decreases self@.source.len() - self@.cursor,
        {
            let c = self.advance();
            if c == '\\' {
                if !self.reached_end() {
                    let e = self.advance();
                    match escape_char(e) {
                        Some(r) => {
                            buf.push(r);
                        },
                        None => {
                            buf.push('\\');
                            buf.push(e);
                        },
                    }
                }
            } else {
                buf.push(c);
            }
        }
        if self.reached_end() {
            self.contains_errors = true;
            self.diagnostics.push(DiagnosticG::UnterminatedString { line: self.token_line });
        } else {
            self.advance();
            let s = chars_to_string(&buf);
            let inner = s.clone();
            self.tokens.push(Token::new(TokenKindG::StringLit(inner), s));
        }
        proof {
            assert(self@ =~= sp_string(old(self)@));
        }
    }

    #[verifier::loop_isolation(false)]
    fn get_indentation_level(&mut self)
        requires
            lv_wf(old(self)@),
            old(self)@.indent_stack.len() <= old(self)@.line + 1,
        ensures
            final(self)@ == sp_indentation(old(self)@),
            lv_wf(final(self)@),
            final(self)@.cursor >= old(self)@.cursor,
            final(self)@.source == old(self)@.source,
            final(self)@.cursor > old(self)@.cursor ==> !final(self)@.at_new_line,
            final(self)@.cursor == old(self)@.cursor ==> final(self)@.at_new_line == old(
                self,
            )@.at_new_line,
            final(self)@.line == old(self)@.line,
    {
        broadcast use lemma_tokens_deep_push, lemma_diags_deep_push;

        let mut spaces: usize = 0;
        while !self.reached_end() && (self.peek() == ' ' || self.peek() == '\t')
            invariant
                lv_wf(self@),
                self@.source == old(self)@.source,
                self@.cursor >= old(self)@.cursor,
                self@.line == old(self)@.line,
                self@.cursor > old(self)@.cursor ==> !self@.at_new_line,
                self@.cursor == old(self)@.cursor ==> self@ == old(self)@,
                self@.indent_stack == old(self)@.indent_stack,
                self@.indent_counter == old(self)@.indent_counter,
                self@.tokens == old(self)@.tokens,
                self@.diags == old(self)@.diags,
                self@.errors == old(self)@.errors,
                self@.token_line == old(self)@.token_line,
                spaces <= 4 * self@.cursor,
                sp_indent_scan(old(self)@, 0) == sp_indent_scan(self@, spaces as int),
            decreases self@.source.len() - self@.cursor,
        {
            if self.peek() == ' ' {
                spaces = spaces + 1;
            } else {
                spaces = spaces + 4;
            }
            self.advance();
        }
        let ghost stscan = self@;
        proof {
            assert(sp_indent_scan(old(self)@, 0) == (stscan, spaces as int));
        }
        let top = self.indent_stack[self.indent_stack.len() - 1];
        if spaces == top {
            self.indent_stack.push(spaces);
            proof {
                assert(self@ =~= sp_indentation(old(self)@));
            }
            return ;
        }
        if spaces > top {
            self.indent_counter = self.indent_counter + 1;
            self.tokens.push(Token::from_kind(TokenKindG::Indent));
        }
        let ghost st2 = self@;
        proof {
            if spaces as int > stscan.indent_stack.last() as int {
                assert(st2 =~= (LexerV {
                    indent_counter: stscan.indent_counter + 1,
                    tokens: stscan.tokens.push(from_kind_v(TokenKindG::Indent)),
                    ..stscan
                }));
            } else {
                assert(st2 =~= stscan);
            }
        }
        let mut lowest: usize = usize::MAX;
        let mut j: usize = self.indent_stack.len();
        let mut broke: bool = false;
        while j > 0 && !broke
            invariant
                self@.source == st2.source,
                self@.cursor == st2.cursor,
                self@.col == st2.col,
                self@.line == st2.line,
                self@.token_line == st2.token_line,
                self@.token_col == st2.token_col,
                self@.at_new_line == st2.at_new_line,
                self@.bracket == st2.bracket,
                self@.paren == st2.paren,
                self@.indent_stack == st2.indent_stack,
                self@.indent_counter <= self@.indent_stack.len(),
                j <= self@.indent_stack.len(),
                (if broke {
                    sp_dedent_loop(
                        st2,
                        st2.indent_stack.len() as int,
                        spaces as int,
                        usize::MAX as int,
                    ) == (self@, true)
                } else {
                    sp_dedent_loop(
                        st2,
                        st2.indent_stack.len() as int,
                        spaces as int,
                        usize::MAX as int,
                    ) == sp_dedent_loop(self@, j as int, spaces as int, lowest as int)
                }),
            decreases j + (if broke {
                0int
            } else {
                1int
            }),
        {
            let i = self.indent_stack[j - 1];
            if spaces == i {
                broke = true;
                proof {
                    assert(sp_dedent_loop(self@, j as int, spaces as int, lowest as int) == (
                        self@,
                        true,
                    ));
                }
            } else {
                if spaces < i && i < lowest {
                    if self.indent_counter == 0 {
                        let ghost pre = self@;
                        self.contains_errors = true;
                        self.diagnostics.push(
                            DiagnosticG::IndentationError { line: self.token_line },
                        );
                        proof {
                            assert(self@ =~= (LexerV {
                                errors: true,
                                diags: pre.diags.push(
                                    DiagnosticG::IndentationError {
                                        line: pre.token_line as usize,
                                    },
                                ),
                                ..pre
                            }));
                            assert(sp_dedent_loop(pre, j as int, spaces as int, lowest as int)
                                == (self@, false));
                            assert(sp_dedent_loop(
                                st2,
                                st2.indent_stack.len() as int,
                                spaces as int,
                                usize::MAX as int,
                            ) == (self@, false));
                            assert(!(sp_dedent_loop(
                                st2,
                                st2.indent_stack.len() as int,
                                spaces as int,
                                usize::MAX as int,
                            ).1));
                            assert(sp_indentation(old(self)@) == sp_dedent_loop(
                                st2,
                                st2.indent_stack.len() as int,
                                spaces as int,
                                usize::MAX as int,
                            ).0);
                            assert(self@ =~= sp_indentation(old(self)@));
                            assert(lv_wf(self@));
                        }
                        return ;
                    }
                    let ghost pre2 = self@;
                    let ghost lowpre = lowest as int;
                    lowest = i;
                    self.indent_counter = self.indent_counter - 1;
                    self.tokens.push(Token::from_kind(TokenKindG::Dedent));
                    proof {
                        assert(self@ =~= (LexerV {
                            indent_counter: pre2.indent_counter - 1,
                            tokens: pre2.tokens.push(from_kind_v(TokenKindG::Dedent)),
                            ..pre2
                        }));
                        assert(sp_dedent_loop(pre2, j as int, spaces as int, lowpre)
                            == sp_dedent_loop(self@, (j - 1) as int, spaces as int, i as int));
                    }
                }
                j = j - 1;
            }
        }
        self.indent_stack.push(spaces);
        proof {
            assert(self@ =~= sp_indentation(old(self)@));
        }
    }

    fn one_or_two(&mut self, one: TokenKind, two: TokenKind)
        requires
            lv_wf(old(self)@),
        ensures
            final(self)@ == sp_one_or_two(old(self)@, one@, two@),
            lv_wf(final(self)@),
            final(self)@.cursor >= old(self)@.cursor,
            final(self)@.source == old(self)@.source,
    {
        broadcast use lemma_tokens_deep_push;

        if self.consume_match('=') {
            self.tokens.push(Token::from_kind(two));
        } else {
            self.tokens.push(Token::from_kind(one));
        }
        proof {
            assert(self@ =~= sp_one_or_two(old(self)@, one@, two@));
        }
    }

    fn get_symbol(&mut self)
        requires
            lv_wf(old(self)@),
            old(self)@.cursor < old(self)@.source.len(),
        ensures
            final(self)@ == sp_symbol(old(self)@),
            lv_wf(final(self)@),
            final(self)@.cursor > old(self)@.cursor,
            final(self)@.source == old(self)@.source,
    {
        broadcast use lemma_tokens_deep_push, lemma_diags_deep_push;

        let c = self.advance();
        match c {
            '(' => {
                self.paren_counter = self.paren_counter + 1;
                self.tokens.push(Token::from_kind(TokenKindG::LeftParen));
            },
            ')' => {
                if self.paren_counter == 0 {
                    self.contains_errors = true;
                    self.diagnostics.push(DiagnosticG::UnmatchedParen { line: self.token_line });
                } else {
                    self.paren_counter = self.paren_counter - 1;
                }
                self.tokens.push(Token::from_kind(TokenKindG::RightParen));
            },
            '[' => {
                self.bracket_counter = self.bracket_counter + 1;
                self.tokens.push(Token::from_kind(TokenKindG::LeftBracket));
            },
            ']' => {
                if self.bracket_counter == 0 {
                    self.contains_errors = true;
                    self.diagnostics.push(
                        DiagnosticG::UnmatchedBracket { line: self.token_line },
                    );
                } else {
                    self.bracket_counter = self.bracket_counter - 1;
                }
                self.tokens.push(Token::from_kind(TokenKindG::RightBracket));
            },
            ',' => {
                self.tokens.push(Token::from_kind(TokenKindG::Comma));
            },
            '.' => {
                self.tokens.push(Token::from_kind(TokenKindG::Period));
            },
            ':' => {
                self.tokens.push(Token::from_kind(TokenKindG::Colon));
            },
            '+' => {
                self.one_or_two(TokenKindG::Plus, TokenKindG::PlusEqual);
            },
            '-' => {
                self.one_or_two(TokenKindG::Minus, TokenKindG::MinusEqual);
            },
            '*' => {
                self.one_or_two(TokenKindG::Star, TokenKindG::StarEqual);
            },
            '/' => {
                self.one_or_two(TokenKindG::Slash, TokenKindG::SlashEqual);
            },
            '%' => {
                self.one_or_two(TokenKindG::Percent, TokenKindG::PercentEqual);
            },
            '^' => {
                self.one_or_two(TokenKindG::Caret, TokenKindG::CaretEqual);
            },
            '!' => {
                self.one_or_two(TokenKindG::Bang, TokenKindG::BangEqual);
            },
            '=' => {
                self.one_or_two(TokenKindG::Equal, TokenKindG::EqualEqual);
            },
            '>' => {
                self.one_or_two(TokenKindG::Greater, TokenKindG::GreaterEqual);
            },
            '<' => {
                self.one_or_two(TokenKindG::Less, TokenKindG::LessEqual);
            },
            '\n' => {
                self.at_new_line = true;
                self.line = self.line + 1;
                self.column = 0;
                let n = self.tokens.len();
                if n > 0 {
                    let is_nl = matches!(self.tokens[n - 1].kind, TokenKindG::Newline);
                    if !is_nl {
                        self.tokens.push(Token::from_kind(TokenKindG::Newline));
                    }
                }
            },
            _ => {
                self.contains_errors = true;
                self.diagnostics.push(
                    DiagnosticG::UnknownSymbol { line: self.token_line, symbol: c },
                );
            },
        }
        proof {
            assert(self@ =~= sp_symbol(old(self)@));
        }
    }
}

/// An element-exact copy of a token vector.
fn clone_tokens(v: &Vec<Token>) -> (r: Vec<Token>)
    ensures
        r@ == v@,
{
    let mut r: Vec<Token> = Vec::new();
    let mut i: usize = 0;
    while i < v.len()
        invariant
            i <= v.len(),
            r@ == v@.subrange(0, i as int),
        decreases v.len() - i,
    {
        let t = (&v[i]).clone();
        r.push(t);
        proof {
            assert(r@ =~= v@.subrange(0, i as int + 1));
        }
        i = i + 1;
    }
    proof {
        assert(r@ =~= v@);
    }
    r
}

impl Lexer {
    fn resolve_indentation_level(&mut self)
        ensures
            final(self)@ == sp_dedents(old(self)@, old(self)@.indent_counter),
    {
        broadcast use lemma_tokens_deep_push;

        let n = self.indent_counter;
        let mut k: usize = 0;
        while k < n
            invariant
                k <= n,
                n == old(self)@.indent_counter,
                sp_dedents(old(self)@, old(self)@.indent_counter) == sp_dedents(
                    self@,
                    n - k,
                ),
            decreases n - k,
        {
            let ghost pre = self@;
            self.tokens.push(Token::from_kind(TokenKindG::Dedent));
            proof {
                assert(self@ =~= (LexerV {
                    tokens: pre.tokens.push(from_kind_v(TokenKindG::Dedent)),
                    ..pre
                }));
            }
            k = k + 1;
        }
    }

    /// Scan the whole source from the beginning (any earlier state is
    /// discarded) and return the token sequence. Afterwards the error flag
    /// says whether any lexical error was found, and the diagnostics hold
    /// one entry per error; the caller must not parse the tokens when the
    /// flag is set.
    #[verifier::loop_isolation(false)]
    pub fn collect_tokens(&mut self) -> (r: Vec<Token>)
        requires
            lv_wf(old(self)@),
        ensures
            final(self)@ == spec_tokenize(old(self)@.source),
            tokens_deep(r@) == spec_tokenize(old(self)@.source).tokens,
    {
        broadcast use lemma_tokens_deep_push;

        self.reset();
        let ghost src = old(self)@.source;
        let ghost init = lex_init(src);
        while !self.reached_end()
            invariant
                lv_wf(self@),
                lv_line_start(self@),
                self@.source == src,
                sp_run(init) == sp_run(self@),
            decreases self@.source.len() - self@.cursor,
        {
            let ghost entry = self@;
            let run_indent = self.at_new_line && !self.at_empty_line() && self.bracket_counter
                == 0 && self.paren_counter == 0;
            if run_indent {
                self.get_indentation_level();
            }
            let ghost st1g = self@;
            proof {
                assert(st1g == (if entry.at_new_line && !sp_empty_line(entry.source, entry.cursor)
                    && entry.bracket == 0 && entry.paren == 0 {
                    sp_indentation(entry)
                } else {
                    entry
                }));
            }
            self.skip_whitespace();
            let ghost st2g = self@;
            if !self.reached_end() {
                self.token_line = self.line;
                self.token_col = self.column;
                let ghost st3g = self@;
                proof {
                    assert(st3g =~= (LexerV { token_line: st2g.line, token_col: st2g.col, ..st2g }));
                }
                let c = self.peek();
                if is_alpha(c) || c == '_' {
                    self.get_identifier();
                } else if is_digit(c) {
                    self.get_number();
                } else if c == '"' || c == '\'' {
                    self.get_string();
                } else if c == '#' {
                    self.skip_line();
                } else {
                    self.get_symbol();
                }
            }
            proof {
                assert(self@ == sp_step(entry));
                assert(sp_run(entry) == sp_run(self@));
            }
        }
        proof {
            assert(self@ == sp_run(init));
        }
        let ghost runst = self@;
        let n = self.tokens.len();
        if n > 0 {
            let is_nl = matches!(self.tokens[n - 1].kind, TokenKindG::Newline);
            if !is_nl {
                self.tokens.push(Token::from_kind(TokenKindG::Newline));
            }
        }
        proof {
            let st1 = if runst.tokens.len() > 0 && runst.tokens.last().kind != TokenKindG::<
                Seq<char>,
            >::Newline {
                LexerV { tokens: runst.tokens.push(from_kind_v(TokenKindG::Newline)), ..runst }
            } else {
                runst
            };
            assert(self@ =~= st1);
        }
        self.resolve_indentation_level();
        proof {
            assert(self@ =~= sp_finish(runst));
        }
        let r = clone_tokens(&self.tokens);
        r
    }
}

/// An ASCII whitespace character: space, tab, line feed, vertical tab, form
/// feed or carriage return.
pub open spec fn blank_char(c: char) -> bool {
    c == ' ' || c == '\t' || c == '\n' || c as u32 == 11 || c as u32 == 12 || c == '\r'
}

proof fn lemma_blank_empty_line(s: Seq<char>, i: int)
    requires
        forall|j: int| i <= j < s.len() ==> blank_char(#[trigger] s[j]),
    ensures
        sp_empty_line(s, i),
    decreases s.len() - i,
{
    if 0 <= i < s.len() && s[i] != '\n' {
        lemma_blank_empty_line(s, i + 1);
    }
}

proof fn lemma_comment_empty_line(s: Seq<char>, i: int, k: int)
    requires
        0 <= i <= k < s.len(),
        s[k] == '#',
        forall|j: int| i <= j < k ==> blank_char(#[trigger] s[j]) && s[j] != '\n',
    ensures
        sp_empty_line(s, i),
    decreases k - i,
{
    if i < k {
        lemma_comment_empty_line(s, i + 1, k);
    }
}

/// Whitespace skipping changes nothing but the cursor, the column and the
/// start-of-line flag.
proof fn lemma_skip_ws_fields(st: LexerV)
    requires
        0 <= st.cursor <= st.source.len(),
    ensures
        ({
            let r = sp_skip_ws(st);
            &&& r.source == st.source
            &&& r.tokens == st.tokens
            &&& r.errors == st.errors
            &&& r.diags == st.diags
            &&& r.indent_counter == st.indent_counter
            &&& r.indent_stack == st.indent_stack
            &&& r.bracket == st.bracket
            &&& r.paren == st.paren
            &&& r.line == st.line
            &&& r.token_line == st.token_line
            &&& r.token_col == st.token_col
            &&& st.cursor <= r.cursor <= st.source.len()
            &&& (r.cursor < st.source.len() ==> !(ws_char(st.source[r.cursor])
                && st.source[r.cursor] != '\n'))
        }),
    decreases st.source.len() - st.cursor,
{
    if st.cursor < st.source.len() && ws_char(lv_peek(st)) && lv_peek(st) != '\n' {
        lemma_skip_ws_fields(lv_advance(st));
    }
}

/// Comment skipping consumes to the end of the line and changes nothing but
/// the cursor, the column and the start-of-line flag.
proof fn lemma_skip_line_fields(st: LexerV)
    requires
        0 <= st.cursor <= st.source.len(),
    ensures
        ({
            let r = sp_skip_line(st);
            &&& r.source == st.source
            &&& r.tokens == st.tokens
            &&& r.errors == st.errors
            &&& r.diags == st.diags
            &&& r.indent_counter == st.indent_counter
            &&& st.cursor <= r.cursor <= st.source.len()
            &&& (r.cursor < st.source.len() ==> st.source[r.cursor] == '\n')
        }),
    decreases st.source.len() - st.cursor,
{
    if st.cursor < st.source.len() && lv_peek(st) != '\n' {
        lemma_skip_line_fields(lv_advance(st));
    }
}

/// Running the scanner over nothing but whitespace emits no token, no error
/// and no diagnostic, and opens no indentation block.
proof fn lemma_blank_run(st: LexerV)
    requires
        0 <= st.cursor <= st.source.len(),
        forall|j: int| st.cursor <= j < st.source.len() ==> blank_char(#[trigger] st.source[j]),
        st.tokens == Seq::<TokenV>::empty(),
        st.errors == false,
        st.diags == Seq::<DiagnosticV>::empty(),
        st.indent_counter == 0,
    ensures
        ({
            let r = sp_run(st);
            &&& r.tokens == Seq::<TokenV>::empty()
            &&& r.errors == false
            &&& r.diags == Seq::<DiagnosticV>::empty()
            &&& r.indent_counter == 0
        }),
    decreases st.source.len() - st.cursor,
{
    if st.cursor < st.source.len() {
        lemma_blank_empty_line(st.source, st.cursor);
        let st1 = st;
        let st2 = sp_skip_ws(st1);
        lemma_skip_ws_fields(st1);
        if st2.cursor >= st2.source.len() {
            assert(sp_step(st) == st2);
            assert(st2.cursor > st.cursor);
            lemma_blank_run(st2);
        } else {
            let st3 = LexerV { token_line: st2.line, token_col: st2.col, ..st2 };
            let c = lv_peek(st3);
            assert(c == st.source[st2.cursor]);
            assert(blank_char(c));
            assert(c == '\n');
            let st4 = sp_symbol(st3);
            assert(st4.tokens == Seq::<TokenV>::empty());
            assert(st4.errors == false);
            assert(st4.cursor == st2.cursor + 1);
            assert(sp_step(st) == st4);
            lemma_blank_run(st4);
        }
    }
}

/// Empty and whitespace-only source both tokenize to an empty sequence,
/// without error.
pub proof fn lemma_blank_source_tokenizes_empty(s: Seq<char>)
    requires
        forall|i: int| 0 <= i < s.len() ==> blank_char(#[trigger] s[i]),
    ensures
        spec_tokenize(s).tokens == Seq::<TokenV>::empty(),
        !spec_tokenize(s).errors,
        spec_tokenize(s).diags == Seq::<DiagnosticV>::empty(),
{
    lemma_blank_run(lex_init(s));
    let r = sp_run(lex_init(s));
    assert(sp_dedents(r, 0) == r);
}

/// Comment-only source — optional leading whitespace, then `#`, then a
/// comment running to the end of the input — tokenizes to an empty sequence,
/// without error.
pub proof fn lemma_comment_source_tokenizes_empty(s: Seq<char>, k: int)
    requires
        0 <= k < s.len(),
        s[k] == '#',
        forall|i: int| 0 <= i < k ==> blank_char(#[trigger] s[i]) && s[i] != '\n',
        forall|i: int| k < i < s.len() ==> #[trigger] s[i] != '\n',
    ensures
        spec_tokenize(s).tokens == Seq::<TokenV>::empty(),
        !spec_tokenize(s).errors,
        spec_tokenize(s).diags == Seq::<DiagnosticV>::empty(),
{
    let st = lex_init(s);
    lemma_comment_empty_line(s, 0, k);
    let st2 = sp_skip_ws(st);
    lemma_skip_ws_fields(st);
    assert(st2.cursor <= k) by {
        lemma_skip_ws_stops_before(st, k);
    }
    assert(st2.cursor == k) by {
        if st2.cursor < k {
            assert(blank_char(s[st2.cursor]) && s[st2.cursor] != '\n');
        }
    }
    let st3 = LexerV { token_line: st2.line, token_col: st2.col, ..st2 };
    assert(lv_peek(st3) == '#');
    let st4 = sp_skip_line(st3);
    lemma_skip_line_fields(st3);
    assert(st4.cursor == s.len()) by {
        if st4.cursor < s.len() {
            assert(s[st4.cursor] == '\n');
            assert(st4.cursor > k);
        }
    }
    assert(sp_step(st) == st4);
    assert(sp_run(st4) == st4);
    assert(sp_run(st) == st4);
    assert(sp_dedents(st4, 0) == st4);
}

/// Whitespace skipping never passes a non-whitespace character.
proof fn lemma_skip_ws_stops_before(st: LexerV, k: int)
    requires
        0 <= st.cursor <= st.source.len(),
        st.cursor <= k < st.source.len(),
        !ws_char(st.source[k]),
    ensures
        sp_skip_ws(st).cursor <= k,
    decreases st.source.len() - st.cursor,
{
    if st.cursor < st.source.len() && ws_char(lv_peek(st)) && lv_peek(st) != '\n' {
        assert(st.cursor < k);
        lemma_skip_ws_stops_before(lv_advance(st), k);
    }
}

/// Tokenizing is a function of the source text alone: two scans of the same
/// source — by one tokenizer after its reset, or by two fresh tokenizers —
/// produce identical token sequences, error flags and diagnostics.
pub proof fn lemma_tokenize_deterministic(a: Seq<char>, b: Seq<char>)
    requires
        a == b,
    ensures
        spec_tokenize(a) == spec_tokenize(b),
{
}

} // verus!
