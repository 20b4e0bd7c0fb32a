pub mod errors;
pub mod token;

use crate::chars::{
    byte_len, byte_offset, char_is_alphabetic, is_alphabetic, is_ascii_digit, is_ascii_punctuation,
    is_ascii_whitespace, lemma_byte_offset_mono, lemma_byte_offset_step, len_utf8,
    spec_is_ascii_digit, spec_is_ascii_punctuation, spec_is_ascii_whitespace, to_chars,
};
use errors::TokenizeError;
use token::{tokens_view, symbol_of, LineBreak, Space, Symbol, Token, TokenKind, TokenKindView, TokenView};
use vstd::prelude::*;

verus! {

broadcast use vstd::string::group_string_axioms;

pub type Tokens<'a> = Vec<Token<'a>>;

/// The classes of characters that make up one multi-character token.
#[derive(Clone, Copy)]
pub enum RunClass {
    Digit,
    Space,
    LineBreak,
    Identifier,
}

pub open spec fn in_class(c: char, class: RunClass) -> bool {
    match class {
        RunClass::Digit => spec_is_ascii_digit(c),
        RunClass::Space => c == ' ' || c == '\t',
        RunClass::LineBreak => c == '\r' || c == '\n',
        RunClass::Identifier => !spec_is_ascii_punctuation(c) && (char_is_alphabetic(c)
            || spec_is_ascii_digit(c)),
    }
}

/// The end of the longest run of characters of `class` that starts at `i`.
pub open spec fn run_end(s: Seq<char>, i: int, class: RunClass) -> int
    decreases s.len() - i,
{
    if i < 0 || i >= s.len() || !in_class(s[i], class) {
        i
    } else {
        run_end(s, i + 1, class)
    }
}

pub open spec fn space_of(c: char) -> Space {
    if c == ' ' {
        Space::Space
    } else {
        Space::Tab
    }
}

pub open spec fn line_break_of(c: char) -> LineBreak {
    if c == '\r' {
        LineBreak::CR
    } else {
        LineBreak::LF
    }
}

/// One step of the lexer at character index `i`.
pub enum LexStep {
    /// A token, and the index just past it.
    Token(TokenView, int),
    /// A NUL character: the text ends here.
    Stop,
    Fail(TokenizeError),
}

pub open spec fn lex_step(s: Seq<char>, i: int) -> LexStep {
    let c = s[i];
    let position = byte_offset(s, i) as usize;
    if spec_is_ascii_digit(c) {
        let j = run_end(s, i, RunClass::Digit);
        LexStep::Token(
            TokenView { kind: TokenKindView::Number(s.subrange(i, j)), pos: position },
            j,
        )
    } else if spec_is_ascii_whitespace(c) {
        if c == ' ' || c == '\t' {
            let j = run_end(s, i, RunClass::Space);
            LexStep::Token(
                TokenView {
                    kind: TokenKindView::WhiteSpace(s.subrange(i, j).map_values(|x| space_of(x))),
                    pos: position,
                },
                j,
            )
        } else if c == '\r' || c == '\n' {
            let j = run_end(s, i, RunClass::LineBreak);
            LexStep::Token(
                TokenView {
                    kind: TokenKindView::LineBreak(
                        s.subrange(i, j).map_values(|x| line_break_of(x)),
                    ),
                    pos: position,
                },
                j,
            )
        } else {
            LexStep::Fail(TokenizeError::UnusableWhitespace { c, position })
        }
    } else if spec_is_ascii_punctuation(c) {
        match symbol_of(c) {
            Some(sym) => LexStep::Token(
                TokenView { kind: TokenKindView::Symbol(sym), pos: position },
                i + 1,
            ),
            None => LexStep::Fail(TokenizeError::NotSymbol),
        }
    } else if char_is_alphabetic(c) {
        let j = run_end(s, i, RunClass::Identifier);
        LexStep::Token(
            TokenView { kind: TokenKindView::Identifier(s.subrange(i, j)), pos: position },
            j,
        )
    } else if c == '\0' {
        LexStep::Stop
    } else {
        LexStep::Fail(TokenizeError::InvalidCharacters { c, position })
    }
}

/// The tokens of `s` from character index `i` on, or the error that stops the lexer.
pub open spec fn lex_from(s: Seq<char>, i: int) -> Result<Seq<TokenView>, TokenizeError>
    decreases s.len() - i,
{
    if i < 0 || i >= s.len() {
        Ok(seq![])
    } else {
        match lex_step(s, i) {
            LexStep::Stop => Ok(seq![]),
            LexStep::Fail(e) => Err(e),
            LexStep::Token(t, j) => if i < j <= s.len() {
                match lex_from(s, j) {
                    Ok(rest) => Ok(seq![t] + rest),
                    Err(e) => Err(e),
                }
            } else {
                Ok(seq![])
            },
        }
    }
}

/// The tokens of the whole source text `s`.
pub open spec fn spec_tokenize(s: Seq<char>) -> Result<Seq<TokenView>, TokenizeError> {
    lex_from(s, 0)
}

pub open spec fn prepend(
    acc: Seq<TokenView>,
    r: Result<Seq<TokenView>, TokenizeError>,
) -> Result<Seq<TokenView>, TokenizeError> {
    match r {
        Ok(rest) => Ok(acc + rest),
        Err(e) => Err(e),
    }
}

pub open spec fn result_view<'a>(r: Result<Tokens<'a>, TokenizeError>) -> Result<
    Seq<TokenView>,
    TokenizeError,
> {
    match r {
        Ok(v) => Ok(tokens_view(v@)),
        Err(e) => Err(e),
    }
}

proof fn lemma_run_end_bounds(s: Seq<char>, i: int, class: RunClass)
    requires
        0 <= i <= s.len(),
    ensures
        i <= run_end(s, i, class) <= s.len(),
        forall|k: int| i <= k < run_end(s, i, class) ==> in_class(#[trigger] s[k], class),
        run_end(s, i, class) < s.len() ==> !in_class(s[run_end(s, i, class)], class),
    decreases s.len() - i,
{
    if i < s.len() && in_class(s[i], class) {
        lemma_run_end_bounds(s, i + 1, class);
    }
}

/// Cut the source text into the smallest units: numbers, identifiers, symbols,
/// runs of spaces and runs of line breaks. A NUL character ends the text.
pub fn tokenize<'a>(source_code: &'a str) -> (res: Result<Tokens<'a>, TokenizeError>)
    ensures
        result_view(res) == spec_tokenize(source_code@),
{
    let chars = to_chars(source_code);
    let total = byte_len(source_code);
    let ghost s = source_code@;
    let mut token_list: Vec<Token<'a>> = Vec::new();
    let mut i: usize = 0;
    let mut position: usize = 0;
    while i < chars.len()
        invariant
            chars@ == s,
            s == source_code@,
            i <= s.len(),
            position == byte_offset(s, i as int),
            total == byte_offset(s, s.len() as int),
            spec_tokenize(s) == prepend(tokens_view(token_list@), lex_from(s, i as int)),
        ensures
            spec_tokenize(s) == Ok::<Seq<TokenView>, TokenizeError>(tokens_view(token_list@)),
        decreases s.len() - i,
    {
        let c = chars[i];
        proof {
            lemma_byte_offset_mono(s, i as int, s.len() as int);
        }
        let start = i;
        let start_position = position;
        let token = if is_ascii_digit(c) {
            let (token, j, p) = eat_number(source_code, &chars, i, position, total);
            i = j;
            position = p;
            token
        } else if is_ascii_whitespace(c) {
            let (token, j, p) = match eat_whitespace(source_code, &chars, i, position, total) {
                Ok(r) => r,
                Err(e) => return Err(e),
            };
            i = j;
            position = p;
            token
        } else if is_ascii_punctuation(c) {
            let token = match eat_symbol(c, position) {
                Ok(token) => token,
                Err(e) => return Err(e),
            };
            proof {
                lemma_byte_offset_step(s, i as int);
                lemma_byte_offset_mono(s, i as int + 1, s.len() as int);
            }
            i = i + 1;
            position = position + len_utf8(c);
            token
        } else if is_alphabetic(c) {
            let (token, j, p) = eat_identifier(source_code, &chars, i, position, total);
            i = j;
            position = p;
            token
        } else if c == '\0' {
            proof {
                assert(lex_from(s, i as int) == Ok::<Seq<TokenView>, TokenizeError>(seq![]));
                assert(tokens_view(token_list@) + seq![] =~= tokens_view(token_list@));
            }
            break;
        } else {
            return Err(TokenizeError::InvalidCharacters { c, position });
        };
        let ghost before = token_list@;
        token_list.push(token);
        proof {
            assert(lex_step(s, start as int) == LexStep::Token(token@, i as int));
            assert(tokens_view(token_list@) =~= tokens_view(before) + seq![token@]);
            match lex_from(s, i as int) {
                Ok(rest) => {
                    assert(tokens_view(before) + (seq![token@] + rest) =~= tokens_view(token_list@)
                        + rest);
                },
                Err(e) => {},
            }
        }
    }
    proof {
        assert(tokens_view(token_list@) + seq![] =~= tokens_view(token_list@));
    }
    Ok(token_list)
}

/// `res` is the token of the run of characters of `class` that starts at `i`, with the index
/// and byte offset just past the run.
pub open spec fn eats_run<'a>(
    s: Seq<char>,
    i: int,
    position: usize,
    class: RunClass,
    res: (Token<'a>, usize, usize),
) -> bool {
    &&& i < res.1 <= s.len()
    &&& res.1 == run_end(s, i, class)
    &&& res.2 == byte_offset(s, res.1 as int)
    &&& res.0.token_pos == position
    &&& res.0.token_kind@ == match class {
        RunClass::Digit => TokenKindView::Number(s.subrange(i, res.1 as int)),
        RunClass::Identifier => TokenKindView::Identifier(s.subrange(i, res.1 as int)),
        RunClass::Space => TokenKindView::WhiteSpace(s.subrange(i, res.1 as int).map_values(|x| space_of(x))),
        RunClass::LineBreak => TokenKindView::LineBreak(
            s.subrange(i, res.1 as int).map_values(|x| line_break_of(x)),
        ),
    }
}

/// Reads the run of characters of `class` that starts at `i`, whose first character
/// is of that class, and builds its token.
fn eat_run<'a>(
    source_code: &'a str,
    chars: &Vec<char>,
    i: usize,
    position: usize,
    total: usize,
    class: RunClass,
) -> (res: (Token<'a>, usize, usize))
    requires
        chars@ == source_code@,
        i < chars@.len(),
        in_class(chars@[i as int], class),
        position == byte_offset(chars@, i as int),
        total == byte_offset(chars@, chars@.len() as int),
    ensures
        eats_run(chars@, i as int, position, class, res),
{
    let ghost s = chars@;
    let mut j = i;
    let mut p = position;
    let mut spaces: Vec<Space> = Vec::new();
    let mut breaks: Vec<LineBreak> = Vec::new();
    proof {
        lemma_run_end_bounds(s, i as int, class);
    }
    while j < chars.len() && char_in_class(chars[j], class)
        invariant
            s == chars@,
            i <= j <= run_end(s, i as int, class),
            run_end(s, i as int, class) <= s.len(),
            forall|k: int| i <= k < run_end(s, i as int, class) ==> in_class(#[trigger] s[k], class),
            run_end(s, i as int, class) < s.len() ==> !in_class(s[run_end(s, i as int, class)], class),
            p == byte_offset(s, j as int),
            total == byte_offset(s, s.len() as int),
            spaces@ == s.subrange(i as int, j as int).map_values(|x| space_of(x)),
            breaks@ == s.subrange(i as int, j as int).map_values(|x| line_break_of(x)),
        decreases s.len() - j,
    {
        let c = chars[j];
        proof {
            lemma_byte_offset_step(s, j as int);
            lemma_byte_offset_mono(s, j as int + 1, s.len() as int);
        }
        let sp = if c == ' ' { Space::Space } else { Space::Tab };
        let lb = if c == '\r' { LineBreak::CR } else { LineBreak::LF };
        spaces.push(sp);
        breaks.push(lb);
        p = p + len_utf8(c);
        j = j + 1;
        assert(spaces@ =~= s.subrange(i as int, j as int).map_values(|x| space_of(x)));
        assert(breaks@ =~= s.subrange(i as int, j as int).map_values(|x| line_break_of(x)));
    }
    let kind = match class {
        RunClass::Digit => TokenKind::Number(source_code.substring_char(i, j)),
        RunClass::Identifier => TokenKind::Identifier(source_code.substring_char(i, j)),
        RunClass::Space => TokenKind::WhiteSpace(spaces),
        RunClass::LineBreak => TokenKind::LineBreak(breaks),
    };
    (Token { token_kind: kind, token_pos: position }, j, p)
}

/// The symbol token of the character `c` read at byte `position`.
fn eat_symbol<'a>(c: char, position: usize) -> (res: Result<Token<'a>, TokenizeError>)
    ensures
        match symbol_of(c) {
            Some(sym) => res matches Ok(t) && t.token_kind == TokenKind::Symbol(sym) && t.token_pos
                == position,
            None => res == Err::<Token<'a>, TokenizeError>(TokenizeError::NotSymbol),
        },
{
    let symbol = match Symbol::try_from(c) {
        Ok(symbol) => symbol,
        Err(e) => return Err(e),
    };
    Ok(Token { token_kind: TokenKind::Symbol(symbol), token_pos: position })
}

/// A number: the run of ASCII digits at `i`.
fn eat_number<'a>(source_code: &'a str, chars: &Vec<char>, i: usize, position: usize, total: usize) -> (res: (
    Token<'a>,
    usize,
    usize,
))
    requires
        chars@ == source_code@,
        i < chars@.len(),
        spec_is_ascii_digit(chars@[i as int]),
        position == byte_offset(chars@, i as int),
        total == byte_offset(chars@, chars@.len() as int),
    ensures
        eats_run(chars@, i as int, position, RunClass::Digit, res),
{
    eat_run(source_code, chars, i, position, total, RunClass::Digit)
}

/// An identifier: the run of letters and digits at `i`.
fn eat_identifier<'a>(source_code: &'a str, chars: &Vec<char>, i: usize, position: usize, total: usize) -> (res: (
    Token<'a>,
    usize,
    usize,
))
    requires
        chars@ == source_code@,
        i < chars@.len(),
        in_class(chars@[i as int], RunClass::Identifier),
        position == byte_offset(chars@, i as int),
        total == byte_offset(chars@, chars@.len() as int),
    ensures
        eats_run(chars@, i as int, position, RunClass::Identifier, res),
{
    eat_run(source_code, chars, i, position, total, RunClass::Identifier)
}

/// A run of spaces and tabs at `i`.
fn eat_space<'a>(source_code: &'a str, chars: &Vec<char>, i: usize, position: usize, total: usize) -> (res: (
    Token<'a>,
    usize,
    usize,
))
    requires
        chars@ == source_code@,
        i < chars@.len(),
        chars@[i as int] == ' ' || chars@[i as int] == '\t',
        position == byte_offset(chars@, i as int),
        total == byte_offset(chars@, chars@.len() as int),
    ensures
        eats_run(chars@, i as int, position, RunClass::Space, res),
{
    eat_run(source_code, chars, i, position, total, RunClass::Space)
}

/// A run of line breaks at `i`.
fn eat_line_break<'a>(source_code: &'a str, chars: &Vec<char>, i: usize, position: usize, total: usize) -> (res: (
    Token<'a>,
    usize,
    usize,
))
    requires
        chars@ == source_code@,
        i < chars@.len(),
        chars@[i as int] == '\r' || chars@[i as int] == '\n',
        position == byte_offset(chars@, i as int),
        total == byte_offset(chars@, chars@.len() as int),
    ensures
        eats_run(chars@, i as int, position, RunClass::LineBreak, res),
{
    eat_run(source_code, chars, i, position, total, RunClass::LineBreak)
}

/// Spaces or line breaks at `i`; any other white space is refused.
fn eat_whitespace<'a>(source_code: &'a str, chars: &Vec<char>, i: usize, position: usize, total: usize) -> (res: Result<
    (Token<'a>, usize, usize),
    TokenizeError,
>)
    requires
        chars@ == source_code@,
        i < chars@.len(),
        position == byte_offset(chars@, i as int),
        total == byte_offset(chars@, chars@.len() as int),
    ensures
        match res {
            Ok(r) => {
                ||| (chars@[i as int] == ' ' || chars@[i as int] == '\t') && eats_run(chars@, i as int, position, RunClass::Space, r)
                ||| (chars@[i as int] == '\r' || chars@[i as int] == '\n') && eats_run(chars@, i as int, position, RunClass::LineBreak, r)
            },
            Err(e) => !(chars@[i as int] == ' ' || chars@[i as int] == '\t' || chars@[i as int] == '\r'
                || chars@[i as int] == '\n') && e == (TokenizeError::UnusableWhitespace {
                c: chars@[i as int],
                position,
            }),
        },
{
    let c = chars[i];
    if c == ' ' || c == '\t' {
        Ok(eat_space(source_code, chars, i, position, total))
    } else if c == '\r' || c == '\n' {
        Ok(eat_line_break(source_code, chars, i, position, total))
    } else {
        Err(TokenizeError::UnusableWhitespace { c, position })
    }
}

fn char_in_class(c: char, class: RunClass) -> (r: bool)
    ensures
        r == in_class(c, class),
{
    match class {
        RunClass::Digit => is_ascii_digit(c),
        RunClass::Space => c == ' ' || c == '\t',
        RunClass::LineBreak => c == '\r' || c == '\n',
        RunClass::Identifier => !is_ascii_punctuation(c) && (is_alphabetic(c) || is_ascii_digit(c)),
    }
}

/// The character that a symbol is written with.
pub open spec fn symbol_char(sym: Symbol) -> char {
    match sym {
        Symbol::Plus => '+',
        Symbol::Minus => '-',
        Symbol::Star => '*',
        Symbol::Slash => '/',
        Symbol::Percent => '%',
        Symbol::Equal => '=',
        Symbol::Caret => '^',
        Symbol::Not => '!',
        Symbol::And => '&',
        Symbol::Or => '|',
        Symbol::GreaterThan => '>',
        Symbol::LessThan => '<',
        Symbol::At => '@',
        Symbol::Dot => '.',
        Symbol::Comma => ',',
        Symbol::Colon => ':',
        Symbol::Semicolon => ';',
        Symbol::Pound => '#',
        Symbol::Dollar => '$',
        Symbol::Question => '?',
        Symbol::Tilde => '~',
        Symbol::LeftParenthesis => '(',
        Symbol::RightParenthesis => ')',
        Symbol::LeftBrackets => '[',
        Symbol::RightBrackets => ']',
        Symbol::LeftBrace => '{',
        Symbol::RightBrace => '}',
        Symbol::SingleQuotation => '\'',
        Symbol::DoubleQuotation => '"',
        Symbol::BackSlash => '\\',
        Symbol::Underscore => '_',
        Symbol::Backtick => '`',
    }
}

/// The characters that a token was cut from.
pub open spec fn token_text(t: TokenView) -> Seq<char> {
    match t.kind {
        TokenKindView::Identifier(s) => s,
        TokenKindView::Number(s) => s,
        TokenKindView::Symbol(sym) => seq![symbol_char(sym)],
        TokenKindView::LineBreak(v) => v.map_values(|b: LineBreak| if b == LineBreak::CR { '\r' } else { '\n' }),
        TokenKindView::WhiteSpace(v) => v.map_values(|x: Space| if x == Space::Space { ' ' } else { '\t' }),
    }
}

/// The characters of the tokens, one token after another.
pub open spec fn spelled(ts: Seq<TokenView>) -> Seq<char>
    decreases ts.len(),
{
    if ts.len() == 0 {
        Seq::empty()
    } else {
        token_text(ts[0]) + spelled(ts.drop_first())
    }
}

/// The text is spelled out by its tokens: when the lexer succeeds from index
/// `i`, its tokens, one after another, are the characters from `i` up to the
/// end of the text or up to a NUL character, where it stopped.
pub proof fn law_tokens_spell_source(s: Seq<char>, i: int)
    requires
        0 <= i <= s.len(),
        lex_from(s, i) is Ok,
    ensures
        exists|e: int|
            i <= e <= s.len() && (e == s.len() || s[e] == '\0') && #[trigger] s.subrange(i, e) == spelled(
                lex_from(s, i)->Ok_0,
            ),
    decreases s.len() - i,
{
    if i >= s.len() {
        assert(s.subrange(i, s.len() as int) =~= spelled(lex_from(s, i)->Ok_0));
        return;
    }
    let c = s[i];
    match lex_step(s, i) {
        LexStep::Stop => {
            assert(s.subrange(i, i) =~= spelled(lex_from(s, i)->Ok_0));
        },
        LexStep::Fail(_) => {},
        LexStep::Token(t, j) => {
            let class = if spec_is_ascii_digit(c) {
                RunClass::Digit
            } else if c == ' ' || c == '\t' {
                RunClass::Space
            } else if c == '\r' || c == '\n' {
                RunClass::LineBreak
            } else {
                RunClass::Identifier
            };
            lemma_run_end_bounds(s, i, class);
            assert(i < j <= s.len());
            assert(token_text(t) =~= s.subrange(i, j));
            law_tokens_spell_source(s, j);
            let rest = lex_from(s, j)->Ok_0;
            let e = choose|e: int|
                j <= e <= s.len() && (e == s.len() || s[e] == '\0') && #[trigger] s.subrange(j, e) == spelled(rest);
            let ts = seq![t] + rest;
            assert(ts.drop_first() =~= rest);
            assert(ts[0] == t);
            assert(s.subrange(i, e) =~= s.subrange(i, j) + s.subrange(j, e));
            assert(s.subrange(i, e) == spelled(lex_from(s, i)->Ok_0));
        },
    }
}

/// Two tokens that the lexer never puts side by side: a run of digits, of spaces or of line
/// breaks after one of its own kind, or a number or an identifier after an identifier, since
/// each run takes every character of its kind.
pub open spec fn glued(a: TokenKindView, b: TokenKindView) -> bool {
    ||| (a is Number && b is Number)
    ||| (a is WhiteSpace && b is WhiteSpace)
    ||| (a is LineBreak && b is LineBreak)
    ||| (a is Identifier && (b is Identifier || b is Number))
}

/// The kind of the token that starts at `j` is one that a character outside the run of the
/// token before it can start.
proof fn lemma_next_not_glued(s: Seq<char>, i: int, j: int)
    requires
        0 <= i < j < s.len(),
        lex_step(s, i) matches LexStep::Token(t, j2) && j2 == j,
        lex_step(s, j) is Token,
    ensures
        !glued((lex_step(s, i)->Token_0).kind, (lex_step(s, j)->Token_0).kind),
{
    let c = s[i];
    let class = if spec_is_ascii_digit(c) {
        RunClass::Digit
    } else if c == ' ' || c == '\t' {
        RunClass::Space
    } else if c == '\r' || c == '\n' {
        RunClass::LineBreak
    } else {
        RunClass::Identifier
    };
    lemma_run_end_bounds(s, i, class);
}

/// Where the lexer's tokens stand: when the lexer succeeds from index `i`, each token stands
/// at the byte offset of its first character, which comes right after the characters of the
/// tokens before it.
pub proof fn law_token_positions(s: Seq<char>, i: int)
    requires
        0 <= i <= s.len(),
        lex_from(s, i) is Ok,
    ensures
        forall|k: int|
            0 <= k < (lex_from(s, i)->Ok_0).len() ==> (#[trigger] (lex_from(s, i)->Ok_0)[k]).pos == byte_offset(
                s,
                i + spelled((lex_from(s, i)->Ok_0).take(k)).len(),
            ) as usize,
    decreases s.len() - i,
{
    if i >= s.len() {
        return;
    }
    match lex_step(s, i) {
        LexStep::Token(t, j) => {
            if !(i < j <= s.len()) {
                return;
            }
            let c = s[i];
            let class = if spec_is_ascii_digit(c) {
                RunClass::Digit
            } else if c == ' ' || c == '\t' {
                RunClass::Space
            } else if c == '\r' || c == '\n' {
                RunClass::LineBreak
            } else {
                RunClass::Identifier
            };
            lemma_run_end_bounds(s, i, class);
            assert(token_text(t) =~= s.subrange(i, j));
            assert(token_text(t).len() == j - i);
            law_token_positions(s, j);
            let rest = lex_from(s, j)->Ok_0;
            let ts = seq![t] + rest;
            assert(lex_from(s, i)->Ok_0 == ts);
            assert forall|k: int| 0 <= k < ts.len() implies (#[trigger] ts[k]).pos == byte_offset(
                s,
                i + spelled(ts.take(k)).len(),
            ) as usize by {
                if k == 0 {
                    assert(ts.take(0) =~= Seq::<TokenView>::empty());
                } else {
                    assert(ts.take(k).drop_first() =~= rest.take(k - 1));
                    assert(ts.take(k)[0] == t);
                    assert(spelled(ts.take(k)) == token_text(t) + spelled(rest.take(k - 1)));
                    assert(ts[k] == rest[k - 1]);
                }
            }
        },
        _ => {},
    }
}

/// Which tokens may follow which: when the lexer succeeds from index `i`, no two neighbouring
/// tokens are glued.
pub proof fn law_tokens_not_glued(s: Seq<char>, i: int)
    requires
        0 <= i <= s.len(),
        lex_from(s, i) is Ok,
    ensures
        forall|k: int|
            0 <= k < (lex_from(s, i)->Ok_0).len() - 1 ==> !glued(
                (#[trigger] (lex_from(s, i)->Ok_0)[k]).kind,
                (lex_from(s, i)->Ok_0)[k + 1].kind,
            ),
    decreases s.len() - i,
{
    if i >= s.len() {
        return;
    }
    match lex_step(s, i) {
        LexStep::Token(t, j) => {
            if !(i < j <= s.len()) {
                return;
            }
            law_tokens_not_glued(s, j);
            let rest = lex_from(s, j)->Ok_0;
            let ts = seq![t] + rest;
            assert(lex_from(s, i)->Ok_0 == ts);
            assert forall|k: int| 0 <= k < ts.len() - 1 implies !glued((#[trigger] ts[k]).kind, ts[k + 1].kind) by {
                assert(ts[k + 1] == rest[k]);
                if k == 0 {
                    assert(ts[0] == t);
                    assert(j < s.len());
                    assert(lex_step(s, j) is Token);
                    lemma_next_not_glued(s, i, j);
                } else {
                    assert(ts[k] == rest[k - 1]);
                }
            }
        },
        _ => {},
    }
}

} // verus!
