use super::errors::TokenStreamParseError;
use super::keywords::{keyword_of, MusubuKeyword};
use super::token::{
    FloatLiteral, FloatLiteralView, LiteralView, MusubuLiteral, MusubuOperator, MusubuToken,
    MusubuTokenKind, MusubuTokenKindView, MusubuTokenView,
};
use crate::ast::{AssignOperator, LogicalOperator};
use crate::chars::{digit_end, digit_prefix_len};
use crate::lexer::token::{tokens_view, Symbol, Token, TokenKind, TokenKindView, TokenView};
use crate::lexer::Tokens;
use crate::primitive::{BinaryOperator, ComparisonOperator};
use vstd::prelude::*;

verus! {

broadcast use {vstd::string::group_string_axioms, vstd::std_specs::vec::group_vec_axioms};

/// The classes of raw tokens that the token lexer reads as runs.
#[derive(Clone, Copy)]
pub enum TokenClass {
    /// identifiers, numbers and `_`
    IdentifierPart,
    /// numbers and `_`
    DigitPart,
    /// line breaks and spaces
    Blank,
}

pub open spec fn in_token_class(k: TokenKindView, class: TokenClass) -> bool {
    match class {
        TokenClass::IdentifierPart => k is Identifier || k is Number || k == TokenKindView::Symbol(
            Symbol::Underscore,
        ),
        TokenClass::DigitPart => k is Number || k == TokenKindView::Symbol(Symbol::Underscore),
        TokenClass::Blank => k is LineBreak || k is WhiteSpace,
    }
}

/// End of the longest run of tokens of `class` that starts at `i`.
pub open spec fn token_run_end(ts: Seq<TokenView>, i: int, class: TokenClass) -> int
    decreases ts.len() - i,
{
    if i < 0 || i >= ts.len() || !in_token_class(ts[i].kind, class) {
        i
    } else {
        token_run_end(ts, i + 1, class)
    }
}

/// Index of the first token at or after `i` that is not a line break or space.
pub open spec fn skip_blank(ts: Seq<TokenView>, i: int) -> int {
    token_run_end(ts, i, TokenClass::Blank)
}

/// The text a token contributes to an identifier or a number.
pub open spec fn part_text(k: TokenKindView) -> Seq<char> {
    match k {
        TokenKindView::Identifier(t) => t,
        TokenKindView::Number(t) => t,
        TokenKindView::Symbol(Symbol::Underscore) => "_"@,
        _ => Seq::empty(),
    }
}

/// The texts of the tokens `i..j`, joined.
pub open spec fn run_text(ts: Seq<TokenView>, i: int, j: int) -> Seq<char>
    decreases j - i,
{
    if j <= i {
        Seq::empty()
    } else {
        run_text(ts, i, j - 1) + part_text(ts[j - 1].kind)
    }
}

/// Reads a run of digit parts at `k`: empty at the end of the tokens,
/// `InvalidNumber` when something else stands there.
pub open spec fn digits_at(ts: Seq<TokenView>, k: int) -> Result<(Seq<char>, int), TokenStreamParseError> {
    if k >= ts.len() {
        Ok((Seq::empty(), k))
    } else if !in_token_class(ts[k].kind, TokenClass::DigitPart) {
        Err(TokenStreamParseError::InvalidNumber)
    } else {
        let m = token_run_end(ts, k, TokenClass::DigitPart);
        Ok((run_text(ts, k, m), m))
    }
}

/// An optional suffix: the identifier at `k`, and the index after what was read.
pub open spec fn suffix_at(ts: Seq<TokenView>, k: int) -> (Option<Seq<char>>, int) {
    if 0 <= k < ts.len() && ts[k].kind is Identifier {
        (Some(ts[k].kind->Identifier_0), k + 1)
    } else {
        (None, k)
    }
}

pub open spec fn starts_with_e(s: Seq<char>) -> bool {
    s.len() > 0 && (s[0] == 'e' || s[0] == 'E')
}

/// One step of the token lexer: a token and the index after it, or an error.
pub enum TokenStep {
    Token(MusubuTokenView, int),
    Fail(TokenStreamParseError),
}

pub open spec fn literal_token(l: LiteralView, position: usize) -> MusubuTokenView {
    MusubuTokenView { kind: MusubuTokenKindView::Literal(l), position }
}

/// `1.5f32`: a number, `.`, the fraction digits and an optional suffix, with blanks between.
pub open spec fn float_step(ts: Seq<TokenView>, dot: int, prefix: Seq<char>, position: usize) -> TokenStep {
    let k = skip_blank(ts, dot + 1);
    match digits_at(ts, k) {
        Err(e) => TokenStep::Fail(e),
        Ok((fraction, m)) => {
            let (suffix, next) = suffix_at(ts, skip_blank(ts, m));
            TokenStep::Token(
                literal_token(
                    LiteralView::Float(
                        FloatLiteralView::Float { value: prefix + "."@ + fraction, suffix },
                    ),
                    position,
                ),
                next,
            )
        },
    }
}

/// `1e10f32`: the exponent digits and maybe the suffix stand in the identifier itself; at
/// least one digit must follow the `e`.
pub open spec fn exponent_ident_step(
    ts: Seq<TokenView>,
    next: int,
    significand: Seq<char>,
    rest: Seq<char>,
    position: usize,
) -> TokenStep {
    let idx = digit_end(rest, 0);
    let exponent = rest.subrange(0, idx);
    let tail = rest.subrange(idx, rest.len() as int);
    let (suffix, after) = if tail.len() == 0 {
        suffix_at(ts, skip_blank(ts, next))
    } else {
        (Some(tail), next)
    };
    if idx == 0 {
        TokenStep::Fail(TokenStreamParseError::InvalidFloatExponent)
    } else {
        TokenStep::Token(
            literal_token(
                LiteralView::Float(
                    FloatLiteralView::Exponent { is_plus_exponent: true, significand, exponent, suffix },
                ),
                position,
            ),
            after,
        )
    }
}

/// `1e-10`: the identifier `e`, an optional sign, the exponent digits and an optional suffix.
pub open spec fn exponent_step(ts: Seq<TokenView>, e: int, significand: Seq<char>, position: usize) -> TokenStep {
    let id = ts[e].kind->Identifier_0;
    if id.len() > 1 {
        exponent_ident_step(ts, e + 1, significand, id.drop_first(), position)
    } else {
        let k = skip_blank(ts, e + 1);
        if k >= ts.len() {
            TokenStep::Fail(TokenStreamParseError::InvalidFloatExponent)
        } else {
            let sign = match ts[k].kind {
                TokenKindView::Symbol(Symbol::Plus) => Some(true),
                TokenKindView::Symbol(Symbol::Minus) => Some(false),
                TokenKindView::Symbol(_) => None,
                _ => Some(true),
            };
            match sign {
                None => TokenStep::Fail(TokenStreamParseError::InvalidFloatExponent),
                Some(is_plus_exponent) => match digits_at(ts, skip_blank(ts, k + 1)) {
                    Err(err) => TokenStep::Fail(err),
                    Ok((exponent, m)) => if exponent.len() == 0 {
                        TokenStep::Fail(TokenStreamParseError::InvalidFloatExponent)
                    } else {
                        let (suffix, after) = suffix_at(ts, skip_blank(ts, m));
                        TokenStep::Token(
                            literal_token(
                                LiteralView::Float(
                                    FloatLiteralView::Exponent {
                                        is_plus_exponent,
                                        significand,
                                        exponent,
                                        suffix,
                                    },
                                ),
                                position,
                            ),
                            after,
                        )
                    },
                },
            }
        }
    }
}

/// A number token at `i`: an integer, or a float when `.` or an `e` identifier follows.
pub open spec fn number_step(ts: Seq<TokenView>, i: int) -> TokenStep {
    let position = ts[i].pos;
    let j = token_run_end(ts, i, TokenClass::DigitPart);
    let value = run_text(ts, i, j);
    if j >= ts.len() {
        TokenStep::Token(literal_token(LiteralView::Integer { value, suffix: None }, position), j)
    } else {
        match ts[j].kind {
            TokenKindView::Identifier(id) => if starts_with_e(id) {
                exponent_step(ts, j, value, position)
            } else {
                TokenStep::Token(literal_token(LiteralView::Integer { value, suffix: Some(id) }, position), j)
            },
            TokenKindView::Symbol(Symbol::Dot) => float_step(ts, j, value, position),
            _ => TokenStep::Token(literal_token(LiteralView::Integer { value, suffix: None }, position), j),
        }
    }
}

/// An identifier at `i` joined with the numbers and `_` that follow it; a keyword when it spells one.
pub open spec fn identifier_step(ts: Seq<TokenView>, i: int) -> TokenStep {
    let j = token_run_end(ts, i, TokenClass::IdentifierPart);
    let text = run_text(ts, i, j);
    let kind = match keyword_of(text) {
        Some(k) => MusubuTokenKindView::Keyword(k),
        None => MusubuTokenKindView::Identifier(text),
    };
    TokenStep::Token(MusubuTokenView { kind, position: ts[i].pos }, j)
}

pub open spec fn trinary_of(a: Symbol, b: Symbol, c: Symbol) -> Option<MusubuOperator> {
    if a == Symbol::GreaterThan && b == Symbol::GreaterThan && c == Symbol::Equal {
        Some(MusubuOperator::Assign(AssignOperator::RightShiftAssign))
    } else if a == Symbol::LessThan && b == Symbol::LessThan && c == Symbol::Equal {
        Some(MusubuOperator::Assign(AssignOperator::LeftShiftAssign))
    } else if a == Symbol::Dot && b == Symbol::Dot && c == Symbol::Dot {
        Some(MusubuOperator::DotDotDot)
    } else {
        None
    }
}

pub open spec fn binary_of(a: Symbol, b: Symbol) -> Option<MusubuOperator> {
    if b == Symbol::Equal && a == Symbol::Plus { Some(MusubuOperator::Assign(AssignOperator::AddAssign)) }
    else if b == Symbol::Equal && a == Symbol::Minus { Some(MusubuOperator::Assign(AssignOperator::SubAssign)) }
    else if b == Symbol::Equal && a == Symbol::Star { Some(MusubuOperator::Assign(AssignOperator::MulAssign)) }
    else if b == Symbol::Equal && a == Symbol::Slash { Some(MusubuOperator::Assign(AssignOperator::DivAssign)) }
    else if b == Symbol::Equal && a == Symbol::Percent { Some(MusubuOperator::Assign(AssignOperator::ModAssign)) }
    else if b == Symbol::Equal && a == Symbol::And { Some(MusubuOperator::Assign(AssignOperator::AndAssign)) }
    else if b == Symbol::Equal && a == Symbol::Or { Some(MusubuOperator::Assign(AssignOperator::OrAssign)) }
    else if b == Symbol::Equal && a == Symbol::Caret { Some(MusubuOperator::Assign(AssignOperator::XorAssign)) }
    else if a == Symbol::And && b == Symbol::And { Some(MusubuOperator::Logical(LogicalOperator::And)) }
    else if a == Symbol::Or && b == Symbol::Or { Some(MusubuOperator::Logical(LogicalOperator::Or)) }
    else if b == Symbol::Equal && a == Symbol::Equal { Some(MusubuOperator::Comparison(ComparisonOperator::Equal)) }
    else if b == Symbol::Equal && a == Symbol::Not { Some(MusubuOperator::Comparison(ComparisonOperator::NotEqual)) }
    else if b == Symbol::Equal && a == Symbol::LessThan { Some(MusubuOperator::Comparison(ComparisonOperator::LessThanEqual)) }
    else if b == Symbol::Equal && a == Symbol::GreaterThan { Some(MusubuOperator::Comparison(ComparisonOperator::GreaterThanEqual)) }
    else if a == Symbol::Dot && b == Symbol::Dot { Some(MusubuOperator::DotDot) }
    else if a == Symbol::LessThan && b == Symbol::Minus { Some(MusubuOperator::LeftArrow) }
    else if a == Symbol::Minus && b == Symbol::GreaterThan { Some(MusubuOperator::RightArrow) }
    else if a == Symbol::Colon && b == Symbol::Colon { Some(MusubuOperator::Path) }
    else { None }
}

pub open spec fn unary_of(a: Symbol) -> Option<MusubuOperator> {
    match a {
        Symbol::Plus => Some(MusubuOperator::Binary(BinaryOperator::Addition)),
        Symbol::Minus => Some(MusubuOperator::Binary(BinaryOperator::Subtract)),
        Symbol::Star => Some(MusubuOperator::Binary(BinaryOperator::Multiply)),
        Symbol::Slash => Some(MusubuOperator::Binary(BinaryOperator::Divide)),
        Symbol::Percent => Some(MusubuOperator::Binary(BinaryOperator::Modulo)),
        Symbol::And => Some(MusubuOperator::Binary(BinaryOperator::And)),
        Symbol::Or => Some(MusubuOperator::Binary(BinaryOperator::Or)),
        Symbol::Caret => Some(MusubuOperator::Binary(BinaryOperator::Xor)),
        Symbol::Equal => Some(MusubuOperator::Assign(AssignOperator::Assign)),
        Symbol::Not => Some(MusubuOperator::Logical(LogicalOperator::Not)),
        Symbol::GreaterThan => Some(MusubuOperator::Comparison(ComparisonOperator::GreaterThan)),
        Symbol::LessThan => Some(MusubuOperator::Comparison(ComparisonOperator::LessThan)),
        Symbol::Question => Some(MusubuOperator::Question),
        Symbol::Dot => Some(MusubuOperator::Dot),
        Symbol::LeftParenthesis => Some(MusubuOperator::LeftParenthesis),
        Symbol::RightParenthesis => Some(MusubuOperator::RightParenthesis),
        Symbol::LeftBrackets => Some(MusubuOperator::LeftBrackets),
        Symbol::RightBrackets => Some(MusubuOperator::RightBrackets),
        Symbol::LeftBrace => Some(MusubuOperator::LeftBrace),
        Symbol::RightBrace => Some(MusubuOperator::RightBrace),
        Symbol::Semicolon => Some(MusubuOperator::Semicolon),
        Symbol::Comma => Some(MusubuOperator::Comma),
        Symbol::Colon => Some(MusubuOperator::Colon),
        Symbol::At => Some(MusubuOperator::At),
        Symbol::Underscore => Some(MusubuOperator::Underscore),
        _ => None,
    }
}

pub open spec fn symbol_at(ts: Seq<TokenView>, k: int) -> Option<Symbol> {
    if 0 <= k < ts.len() && ts[k].kind is Symbol {
        Some(ts[k].kind->Symbol_0)
    } else {
        None
    }
}

/// The operator at `i`: the longest of three, two or one symbols that forms one.
pub open spec fn operator_step(ts: Seq<TokenView>, i: int) -> TokenStep {
    let position = ts[i].pos;
    let tri = match (symbol_at(ts, i), symbol_at(ts, i + 1), symbol_at(ts, i + 2)) {
        (Some(a), Some(b), Some(c)) => trinary_of(a, b, c),
        _ => None,
    };
    let bin = match (symbol_at(ts, i), symbol_at(ts, i + 1)) {
        (Some(a), Some(b)) => binary_of(a, b),
        _ => None,
    };
    let un = match symbol_at(ts, i) {
        Some(a) => unary_of(a),
        None => None,
    };
    if tri is Some {
        TokenStep::Token(MusubuTokenView { kind: MusubuTokenKindView::Operator(tri->0), position }, i + 3)
    } else if bin is Some {
        TokenStep::Token(MusubuTokenView { kind: MusubuTokenKindView::Operator(bin->0), position }, i + 2)
    } else if un is Some {
        TokenStep::Token(MusubuTokenView { kind: MusubuTokenKindView::Operator(un->0), position }, i + 1)
    } else {
        TokenStep::Fail(TokenStreamParseError::InvalidOperator)
    }
}

/// The parser's tokens read from the raw tokens `ts` from index `i` on.
pub open spec fn token_stream_from(ts: Seq<TokenView>, i: int) -> Result<Seq<MusubuTokenView>, TokenStreamParseError>
    decreases ts.len() - i,
{
    if i < 0 || i >= ts.len() {
        Ok(Seq::empty())
    } else {
        let step = match ts[i].kind {
            TokenKindView::Identifier(_) => identifier_step(ts, i),
            TokenKindView::Number(_) => number_step(ts, i),
            TokenKindView::Symbol(_) => operator_step(ts, i),
            _ => TokenStep::Fail(TokenStreamParseError::UnexpectedEof),
        };
        if ts[i].kind is LineBreak || ts[i].kind is WhiteSpace {
            let j = skip_blank(ts, i);
            if i < j <= ts.len() {
                token_stream_from(ts, j)
            } else {
                Ok(Seq::empty())
            }
        } else {
            match step {
                TokenStep::Fail(e) => Err(e),
                TokenStep::Token(t, j) => if i < j <= ts.len() {
                    match token_stream_from(ts, j) {
                        Ok(rest) => Ok(seq![t] + rest),
                        Err(e) => Err(e),
                    }
                } else {
                    Ok(Seq::empty())
                },
            }
        }
    }
}

/// The parser's tokens of the raw tokens `ts`.
pub open spec fn spec_token_stream(ts: Seq<TokenView>) -> Result<Seq<MusubuTokenView>, TokenStreamParseError> {
    token_stream_from(ts, 0)
}

} // verus!

verus! {

pub open spec fn musubu_tokens_view(s: Seq<MusubuToken>) -> Seq<MusubuTokenView> {
    s.map_values(|t: MusubuToken| t@)
}

/// How an exec step agrees with a step of the specification.
pub open spec fn step_agrees(step: TokenStep, res: Result<MusubuToken, TokenStreamParseError>, next: int) -> bool {
    match step {
        TokenStep::Token(t, j) => res matches Ok(tok) && tok@ == t && next == j,
        TokenStep::Fail(e) => res == Err::<MusubuToken, TokenStreamParseError>(e),
    }
}

/// The parser's tokens, and the index of the token that is read next.
#[derive(Debug)]
pub struct TokenStream {
    tokens: Vec<MusubuToken>,
    index: usize,
}

impl TokenStream {
    /// The tokens of the stream.
    pub closed spec fn spec_tokens(&self) -> Seq<MusubuToken> {
        self.tokens@
    }

    /// The index of the token that is read next; it may lie past the end.
    pub closed spec fn spec_index(&self) -> usize {
        self.index
    }

    /// The token at the current index, if there is one.
    pub open spec fn spec_current(&self) -> Option<MusubuToken> {
        if self.spec_index() < self.spec_tokens().len() {
            Some(self.spec_tokens()[self.spec_index() as int])
        } else {
            None
        }
    }

    fn new(tokens: Vec<MusubuToken>) -> (s: Self)
        ensures
            s.spec_tokens() == tokens@,
            s.spec_index() == 0,
    {
        Self { tokens, index: 0 }
    }

    pub fn set_position(&mut self, position: usize)
        ensures
            final(self).spec_tokens() == old(self).spec_tokens(),
            final(self).spec_index() == position,
    {
        self.index = position;
    }

    pub fn get_position(&self) -> (p: usize)
        ensures
            p == self.spec_index(),
    {
        self.index
    }

    /// The current token, moving the index one token on.
    pub fn next(&mut self) -> (res: Option<&MusubuToken>)
        requires
            old(self).spec_index() < usize::MAX,
        ensures
            final(self).spec_tokens() == old(self).spec_tokens(),
            final(self).spec_index() == old(self).spec_index() + 1,
            res == (match old(self).spec_current() {
                Some(t) => Some(&t),
                None => None::<&MusubuToken>,
            }),
    {
        let i = self.index;
        self.index = i + 1;
        if i < self.tokens.len() {
            Some(&self.tokens[i])
        } else {
            None
        }
    }

    pub fn get_from_index(&self, index: usize) -> (res: Option<&MusubuToken>)
        ensures
            res == (if index < self.spec_tokens().len() {
                Some(&self.spec_tokens()[index as int])
            } else {
                None::<&MusubuToken>
            }),
    {
        if index < self.tokens.len() {
            Some(&self.tokens[index])
        } else {
            None
        }
    }

    pub fn get(&self) -> (res: Option<&MusubuToken>)
        ensures
            res == (match self.spec_current() {
                Some(t) => Some(&t),
                None => None::<&MusubuToken>,
            }),
    {
        self.get_from_index(self.index)
    }

    pub fn get_keyword(&self) -> (res: Option<&MusubuKeyword>)
        ensures
            res == (match self.spec_current() {
                Some(t) => match t.token_kind {
                    MusubuTokenKind::Keyword(k) => Some(&k),
                    _ => None::<&MusubuKeyword>,
                },
                None => None::<&MusubuKeyword>,
            }),
    {
        let token = match self.get() {
            Some(t) => t,
            None => return None,
        };
        let MusubuTokenKind::Keyword(keyword) = &token.token_kind else {
            return None;
        };
        Some(keyword)
    }

    pub fn get_literal(&self) -> (res: Option<&MusubuLiteral>)
        ensures
            res == (match self.spec_current() {
                Some(t) => match t.token_kind {
                    MusubuTokenKind::Literal(l) => Some(&l),
                    _ => None::<&MusubuLiteral>,
                },
                None => None::<&MusubuLiteral>,
            }),
    {
        let token = match self.get() {
            Some(t) => t,
            None => return None,
        };
        let MusubuTokenKind::Literal(literal) = &token.token_kind else {
            return None;
        };
        Some(literal)
    }

    pub fn get_identifier(&self) -> (res: Option<&str>)
        ensures
            match self.spec_current() {
                Some(t) => match t.token_kind {
                    MusubuTokenKind::Identifier(s) => res matches Some(r) && r@ == s@,
                    _ => res is None,
                },
                None => res is None,
            },
    {
        let token = match self.get() {
            Some(t) => t,
            None => return None,
        };
        let MusubuTokenKind::Identifier(ident) = &token.token_kind else {
            return None;
        };
        Some(ident.as_str())
    }

    pub fn get_operator(&self) -> (res: Option<&MusubuOperator>)
        ensures
            res == (match self.spec_current() {
                Some(t) => match t.token_kind {
                    MusubuTokenKind::Operator(o) => Some(&o),
                    _ => None::<&MusubuOperator>,
                },
                None => None::<&MusubuOperator>,
            }),
    {
        let token = match self.get() {
            Some(t) => t,
            None => return None,
        };
        let MusubuTokenKind::Operator(op) = &token.token_kind else {
            return None;
        };
        Some(op)
    }

    pub fn get_binary_operator(&self) -> (res: Option<&BinaryOperator>)
        ensures
            res == (match self.spec_current() {
                Some(t) => match t.token_kind {
                    MusubuTokenKind::Operator(MusubuOperator::Binary(o)) => Some(&o),
                    _ => None::<&BinaryOperator>,
                },
                None => None::<&BinaryOperator>,
            }),
    {
        let MusubuOperator::Binary(op) = (match self.get_operator() {
            Some(o) => o,
            None => return None,
        }) else {
            return None;
        };
        Some(op)
    }

    pub fn get_assign_operator(&self) -> (res: Option<&AssignOperator>)
        ensures
            res == (match self.spec_current() {
                Some(t) => match t.token_kind {
                    MusubuTokenKind::Operator(MusubuOperator::Assign(o)) => Some(&o),
                    _ => None::<&AssignOperator>,
                },
                None => None::<&AssignOperator>,
            }),
    {
        let MusubuOperator::Assign(op) = (match self.get_operator() {
            Some(o) => o,
            None => return None,
        }) else {
            return None;
        };
        Some(op)
    }

    pub fn get_comparison_operator(&self) -> (res: Option<&ComparisonOperator>)
        ensures
            res == (match self.spec_current() {
                Some(t) => match t.token_kind {
                    MusubuTokenKind::Operator(MusubuOperator::Comparison(o)) => Some(&o),
                    _ => None::<&ComparisonOperator>,
                },
                None => None::<&ComparisonOperator>,
            }),
    {
        let MusubuOperator::Comparison(op) = (match self.get_operator() {
            Some(o) => o,
            None => return None,
        }) else {
            return None;
        };
        Some(op)
    }

    pub fn get_logical_operator(&self) -> (res: Option<&LogicalOperator>)
        ensures
            res == (match self.spec_current() {
                Some(t) => match t.token_kind {
                    MusubuTokenKind::Operator(MusubuOperator::Logical(o)) => Some(&o),
                    _ => None::<&LogicalOperator>,
                },
                None => None::<&LogicalOperator>,
            }),
    {
        let MusubuOperator::Logical(op) = (match self.get_operator() {
            Some(o) => o,
            None => return None,
        }) else {
            return None;
        };
        Some(op)
    }
}

} // verus!

verus! {

fn token_in_class(kind: &TokenKind, class: TokenClass) -> (r: bool)
    ensures
        r == in_token_class(kind@, class),
{
    match class {
        TokenClass::IdentifierPart => match kind {
            TokenKind::Identifier(_) | TokenKind::Number(_) => true,
            TokenKind::Symbol(Symbol::Underscore) => true,
            _ => false,
        },
        TokenClass::DigitPart => match kind {
            TokenKind::Number(_) => true,
            TokenKind::Symbol(Symbol::Underscore) => true,
            _ => false,
        },
        TokenClass::Blank => match kind {
            TokenKind::LineBreak(_) | TokenKind::WhiteSpace(_) => true,
            _ => false,
        },
    }
}

proof fn lemma_token_run_end(ts: Seq<TokenView>, i: int, class: TokenClass)
    requires
        0 <= i <= ts.len(),
    ensures
        i <= token_run_end(ts, i, class) <= ts.len(),
        i < ts.len() && in_token_class(ts[i].kind, class) ==> i < token_run_end(ts, i, class),
    decreases ts.len() - i,
{
    if i < ts.len() && in_token_class(ts[i].kind, class) {
        lemma_token_run_end(ts, i + 1, class);
    }
}

/// Reads the run of tokens of `class` at `*it`, joining their texts.
fn eat_run<'a>(tokens: &Tokens<'a>, it: &mut usize, class: TokenClass) -> (text: String)
    requires
        *old(it) <= tokens@.len(),
    ensures
        *old(it) <= *final(it) <= tokens@.len(),
        *final(it) == token_run_end(tokens_view(tokens@), *old(it) as int, class),
        text@ == run_text(tokens_view(tokens@), *old(it) as int, *final(it) as int),
{
    let ghost ts = tokens_view(tokens@);
    let ghost start = *it as int;
    let mut text = String::new();
    proof {
        lemma_token_run_end(ts, start, class);
    }
    assert(token_run_end(ts, start, class) <= tokens@.len());
    while *it < tokens.len() && token_in_class(&tokens[*it].token_kind, class)
        invariant
            ts == tokens_view(tokens@),
            start <= *it <= tokens@.len(),
            token_run_end(ts, start, class) == token_run_end(ts, *it as int, class),
            text@ == run_text(ts, start, *it as int),
        decreases tokens@.len() - *it,
    {
        let k = *it;
        assert(ts[k as int] == tokens@[k as int]@);
        match &tokens[k].token_kind {
            TokenKind::Identifier(s) => text.append(s),
            TokenKind::Number(s) => text.append(s),
            TokenKind::Symbol(Symbol::Underscore) => text.append("_"),
            _ => {
                assert(text@ + Seq::<char>::empty() =~= text@);
            },
        }
        *it = k + 1;
        assert(text@ == run_text(ts, start, *it as int));
    }
    text
}

fn eat_whitespace<'a>(tokens: &Tokens<'a>, it: &mut usize)
    requires
        *old(it) <= tokens@.len(),
    ensures
        *old(it) <= *final(it),
        *final(it) == skip_blank(tokens_view(tokens@), *old(it) as int),
        *final(it) <= tokens@.len(),
{
    proof {
        lemma_token_run_end(tokens_view(tokens@), *it as int, TokenClass::Blank);
    }
    let _ = eat_run(tokens, it, TokenClass::Blank);
}

/// Whether a number or `_` stands at `*it`.
pub fn is_valid_number<'a>(tokens: &Tokens<'a>, it: &usize) -> (r: bool)
    ensures
        r == (*it < tokens@.len() && in_token_class(tokens@[*it as int].token_kind@, TokenClass::DigitPart)),
{
    if *it >= tokens.len() {
        return false;
    }
    token_in_class(&tokens[*it].token_kind, TokenClass::DigitPart)
}

fn eat_digit<'a>(tokens: &Tokens<'a>, it: &mut usize) -> (res: Result<String, TokenStreamParseError>)
    requires
        *old(it) <= tokens@.len(),
    ensures
        *old(it) <= *final(it),
        match digits_at(tokens_view(tokens@), *old(it) as int) {
            Ok((text, m)) => res matches Ok(s) && s@ == text && *final(it) == m,
            Err(e) => res == Err::<String, TokenStreamParseError>(e),
        },
        *final(it) <= tokens@.len(),
{
    let ghost ts = tokens_view(tokens@);
    if *it >= tokens.len() {
        return Ok(String::new());
    }
    assert(ts[*it as int] == tokens@[*it as int]@);
    if !token_in_class(&tokens[*it].token_kind, TokenClass::DigitPart) {
        return Err(TokenStreamParseError::InvalidNumber);
    }
    proof {
        lemma_token_run_end(ts, *it as int, TokenClass::DigitPart);
    }
    Ok(eat_run(tokens, it, TokenClass::DigitPart))
}

fn eat_dec_digit<'a>(tokens: &Tokens<'a>, it: &mut usize) -> (res: Result<String, TokenStreamParseError>)
    requires
        *old(it) <= tokens@.len(),
    ensures
        *old(it) <= *final(it),
        match digits_at(tokens_view(tokens@), *old(it) as int) {
            Ok((text, m)) => res matches Ok(s) && s@ == text && *final(it) == m,
            Err(e) => res == Err::<String, TokenStreamParseError>(e),
        },
        *final(it) <= tokens@.len(),
{
    eat_digit(tokens, it)
}

/// Reads the identifier at `*it` with the numbers and `_` that follow it.
fn eat_identifier<'a>(tokens: &Tokens<'a>, it: &mut usize) -> (res: Result<String, TokenStreamParseError>)
    requires
        *old(it) < tokens@.len(),
    ensures
        res is Ok ==> *old(it) < *final(it),
        (tokens@[*old(it) as int].token_kind is Identifier || tokens@[*old(it) as int].token_kind
            == TokenKind::Symbol(Symbol::Underscore)) ==> (res matches Ok(s) && *final(it)
            == token_run_end(tokens_view(tokens@), *old(it) as int, TokenClass::IdentifierPart)
            && s@ == run_text(tokens_view(tokens@), *old(it) as int, *final(it) as int)),
        !(tokens@[*old(it) as int].token_kind is Identifier || tokens@[*old(it) as int].token_kind
            == TokenKind::Symbol(Symbol::Underscore)) ==> res == Err::<String, TokenStreamParseError>(
            TokenStreamParseError::InvalidIdentifier),
        *final(it) <= tokens@.len(),
{
    proof {
        lemma_token_run_end(tokens_view(tokens@), *it as int, TokenClass::IdentifierPart);
    }
    assert(tokens_view(tokens@)[*it as int] == tokens@[*it as int]@);
    let ok = match &tokens[*it].token_kind {
        TokenKind::Identifier(_) => true,
        TokenKind::Symbol(Symbol::Underscore) => true,
        _ => false,
    };
    if !ok {
        return Err(TokenStreamParseError::InvalidIdentifier);
    }
    proof {
        lemma_token_run_end(tokens_view(tokens@), *it as int, TokenClass::IdentifierPart);
    }
    Ok(eat_run(tokens, it, TokenClass::IdentifierPart))
}

/// The identifier at `*it`, if one stands there, moving past it.
fn take_suffix<'a>(tokens: &Tokens<'a>, it: &mut usize) -> (res: Option<String>)
    requires
        *old(it) <= tokens@.len(),
    ensures
        *old(it) <= *final(it),
        (crate::parser::token::opt_view(res), *final(it) as int) == suffix_at(
            tokens_view(tokens@),
            *old(it) as int,
        ),
        *final(it) <= tokens@.len(),
{
    if *it >= tokens.len() {
        return None;
    }
    assert(tokens_view(tokens@)[*it as int] == tokens@[*it as int]@);
    match &tokens[*it].token_kind {
        TokenKind::Identifier(ident) => {
            *it = *it + 1;
            Some(String::from_str(ident))
        },
        _ => None,
    }
}

fn starts_with_e_exec(s: &str) -> (r: bool)
    ensures
        r == starts_with_e(s@),
{
    if s.unicode_len() == 0 {
        return false;
    }
    let c = s.get_char(0);
    c == 'e' || c == 'E'
}

fn tokenize_identifier<'a>(tokens: &Tokens<'a>, it: &mut usize, position: usize) -> (res: Result<MusubuToken, TokenStreamParseError>)
    requires
        *old(it) < tokens@.len(),
        tokens@[*old(it) as int].token_kind is Identifier,
        position == tokens@[*old(it) as int].token_pos,
    ensures
        step_agrees(identifier_step(tokens_view(tokens@), *old(it) as int), res, *final(it) as int),
        *final(it) <= tokens@.len(),
        res is Ok ==> *old(it) < *final(it),
{
    let ident = match eat_identifier(tokens, it) {
        Ok(s) => s,
        Err(e) => return Err(e),
    };
    match MusubuKeyword::from_str(ident.as_str()) {
        Ok(keyword) => Ok(MusubuToken { token_kind: MusubuTokenKind::Keyword(keyword), position }),
        Err(_) => Ok(MusubuToken { token_kind: MusubuTokenKind::Identifier(ident), position }),
    }
}

fn tokenize_float_literal<'a>(tokens: &Tokens<'a>, it: &mut usize, prefix: &str, position: usize) -> (res: Result<MusubuToken, TokenStreamParseError>)
    requires
        *old(it) < tokens@.len(),
        tokens@[*old(it) as int].token_kind == TokenKind::Symbol(Symbol::Dot),
    ensures
        step_agrees(float_step(tokens_view(tokens@), *old(it) as int, prefix@, position), res, *final(it) as int),
        *final(it) <= tokens@.len(),
        res is Ok ==> *old(it) < *final(it),
{
    let len = tokens.len();
    *it = *it + 1;
    eat_whitespace(tokens, it);
    let fraction = match eat_dec_digit(tokens, it) {
        Ok(f) => f,
        Err(e) => return Err(e),
    };
    let mut value = String::from_str(prefix);
    value.append(".");
    value.append(fraction.as_str());
    eat_whitespace(tokens, it);
    let suffix = take_suffix(tokens, it);
    Ok(MusubuToken {
        token_kind: MusubuTokenKind::Literal(MusubuLiteral::Float(FloatLiteral::Float { value, suffix })),
        position,
    })
}

fn tokenize_float_literal_exponent_ident<'a>(
    tokens: &Tokens<'a>,
    it: &mut usize,
    significand: String,
    exponent: &str,
    position: usize,
) -> (res: Result<MusubuToken, TokenStreamParseError>)
    requires
        *old(it) <= tokens@.len(),
    ensures
        step_agrees(exponent_ident_step(tokens_view(tokens@), *old(it) as int, significand@, exponent@, position), res, *final(it) as int),
        *final(it) <= tokens@.len(),
        *old(it) <= *final(it),
{
    let n = exponent.unicode_len();
    let index = digit_prefix_len(exponent);
    let digits = exponent.substring_char(0, index);
    let tail = exponent.substring_char(index, n);
    if index == 0 {
        return Err(TokenStreamParseError::InvalidFloatExponent);
    }
    let suffix = if index == n {
        eat_whitespace(tokens, it);
        take_suffix(tokens, it)
    } else {
        Some(String::from_str(tail))
    };
    Ok(MusubuToken {
        token_kind: MusubuTokenKind::Literal(
            MusubuLiteral::Float(
                FloatLiteral::Exponent {
                    is_plus_exponent: true,
                    significand,
                    exponent: String::from_str(digits),
                    suffix,
                },
            ),
        ),
        position,
    })
}

fn tokenize_float_literal_exponent<'a>(tokens: &Tokens<'a>, it: &mut usize, significand: String, position: usize) -> (res: Result<MusubuToken, TokenStreamParseError>)
    requires
        *old(it) < tokens@.len(),
        tokens@[*old(it) as int].token_kind is Identifier,
        starts_with_e(tokens@[*old(it) as int].token_kind@->Identifier_0),
    ensures
        step_agrees(exponent_step(tokens_view(tokens@), *old(it) as int, significand@, position), res, *final(it) as int),
        *final(it) <= tokens@.len(),
        res is Ok ==> *old(it) < *final(it),
{
    let ghost ts = tokens_view(tokens@);
    let ghost e = *it as int;
    let len = tokens.len();
    assert(ts[e] == tokens@[e]@);
    let ident: &str = match &tokens[*it].token_kind {
        TokenKind::Identifier(ident) => ident,
        _ => return Err(TokenStreamParseError::InvalidIdentifier),
    };
    *it = *it + 1;
    let n = ident.unicode_len();
    if n > 1 {
        let rest = ident.substring_char(1, n);
        assert(rest@ =~= ident@.drop_first());
        return tokenize_float_literal_exponent_ident(tokens, it, significand, rest, position);
    }
    eat_whitespace(tokens, it);
    if *it >= tokens.len() {
        return Err(TokenStreamParseError::InvalidFloatExponent);
    }
    let k = *it;
    assert(ts[k as int] == tokens@[k as int]@);
    let is_plus_exponent = match &tokens[k].token_kind {
        TokenKind::Symbol(Symbol::Plus) => true,
        TokenKind::Symbol(Symbol::Minus) => false,
        TokenKind::Symbol(_) => return Err(TokenStreamParseError::InvalidFloatExponent),
        _ => true,
    };
    *it = k + 1;
    eat_whitespace(tokens, it);
    let exponent = match eat_dec_digit(tokens, it) {
        Ok(x) => x,
        Err(err) => return Err(err),
    };
    if exponent.as_str().unicode_len() == 0 {
        return Err(TokenStreamParseError::InvalidFloatExponent);
    }
    eat_whitespace(tokens, it);
    let suffix = take_suffix(tokens, it);
    Ok(MusubuToken {
        token_kind: MusubuTokenKind::Literal(
            MusubuLiteral::Float(
                FloatLiteral::Exponent { is_plus_exponent, significand, exponent, suffix },
            ),
        ),
        position,
    })
}

fn tokenize_number<'a>(tokens: &Tokens<'a>, it: &mut usize, position: usize) -> (res: Result<MusubuToken, TokenStreamParseError>)
    requires
        *old(it) < tokens@.len(),
        tokens@[*old(it) as int].token_kind is Number,
        position == tokens@[*old(it) as int].token_pos,
    ensures
        step_agrees(number_step(tokens_view(tokens@), *old(it) as int), res, *final(it) as int),
        *final(it) <= tokens@.len(),
        res is Ok ==> *old(it) < *final(it),
{
    let ghost ts = tokens_view(tokens@);
    assert(ts[*it as int] == tokens@[*it as int]@);
    proof {
        lemma_token_run_end(ts, *it as int, TokenClass::DigitPart);
    }
    let value = match eat_dec_digit(tokens, it) {
        Ok(v) => v,
        Err(e) => return Err(e),
    };
    if *it >= tokens.len() {
        return Ok(MusubuToken {
            token_kind: MusubuTokenKind::Literal(MusubuLiteral::Integer { value, suffix: None }),
            position,
        });
    }
    let j = *it;
    assert(ts[j as int] == tokens@[j as int]@);
    match &tokens[j].token_kind {
        TokenKind::Identifier(ident) => {
            if starts_with_e_exec(ident) {
                return tokenize_float_literal_exponent(tokens, it, value, position);
            }
            Ok(MusubuToken {
                token_kind: MusubuTokenKind::Literal(
                    MusubuLiteral::Integer { value, suffix: Some(String::from_str(ident)) },
                ),
                position,
            })
        },
        TokenKind::Symbol(Symbol::Dot) => tokenize_float_literal(tokens, it, value.as_str(), position),
        _ => Ok(MusubuToken {
            token_kind: MusubuTokenKind::Literal(MusubuLiteral::Integer { value, suffix: None }),
            position,
        }),
    }
}

fn symbol_at_exec<'a>(tokens: &Tokens<'a>, k: usize) -> (r: Option<Symbol>)
    ensures
        r == symbol_at(tokens_view(tokens@), k as int),
{
    if k >= tokens.len() {
        return None;
    }
    assert(tokens_view(tokens@)[k as int] == tokens@[k as int]@);
    match &tokens[k].token_kind {
        TokenKind::Symbol(s) => Some(*s),
        _ => None,
    }
}

fn get_trinary_operator<'a>(tokens: &Tokens<'a>, it: &mut usize) -> (res: Option<MusubuOperator>)
    requires
        *old(it) < tokens@.len(),
    ensures
        res == (match (symbol_at(tokens_view(tokens@), *old(it) as int), symbol_at(tokens_view(tokens@), *old(it) + 1), symbol_at(tokens_view(tokens@), *old(it) + 2)) {
            (Some(a), Some(b), Some(c)) => trinary_of(a, b, c),
            _ => None,
        }),
        *final(it) == if res is Some { *old(it) + 3 } else { *old(it) as int },
{
    let k = *it;
    let len = tokens.len();
    let a = match symbol_at_exec(tokens, k) { Some(s) => s, None => return None };
    if k + 1 >= len { return None; }
    let b = match symbol_at_exec(tokens, k + 1) { Some(s) => s, None => return None };
    if k + 2 >= tokens.len() { return None; }
    let c = match symbol_at_exec(tokens, k + 2) { Some(s) => s, None => return None };
    let op = match (a, b, c) {
        (Symbol::GreaterThan, Symbol::GreaterThan, Symbol::Equal) => MusubuOperator::Assign(AssignOperator::RightShiftAssign),
        (Symbol::LessThan, Symbol::LessThan, Symbol::Equal) => MusubuOperator::Assign(AssignOperator::LeftShiftAssign),
        (Symbol::Dot, Symbol::Dot, Symbol::Dot) => MusubuOperator::DotDotDot,
        _ => return None,
    };
    *it = k + 3;
    Some(op)
}

fn get_binary_operator<'a>(tokens: &Tokens<'a>, it: &mut usize) -> (res: Option<MusubuOperator>)
    requires
        *old(it) < tokens@.len(),
    ensures
        res == (match (symbol_at(tokens_view(tokens@), *old(it) as int), symbol_at(tokens_view(tokens@), *old(it) + 1)) {
            (Some(a), Some(b)) => binary_of(a, b),
            _ => None,
        }),
        *final(it) == if res is Some { *old(it) + 2 } else { *old(it) as int },
{
    let k = *it;
    let len = tokens.len();
    let a = match symbol_at_exec(tokens, k) { Some(s) => s, None => return None };
    if k + 1 >= len { return None; }
    let b = match symbol_at_exec(tokens, k + 1) { Some(s) => s, None => return None };
    let op = match (a, b) {
        (Symbol::Plus, Symbol::Equal) => MusubuOperator::Assign(AssignOperator::AddAssign),
        (Symbol::Minus, Symbol::Equal) => MusubuOperator::Assign(AssignOperator::SubAssign),
        (Symbol::Star, Symbol::Equal) => MusubuOperator::Assign(AssignOperator::MulAssign),
        (Symbol::Slash, Symbol::Equal) => MusubuOperator::Assign(AssignOperator::DivAssign),
        (Symbol::Percent, Symbol::Equal) => MusubuOperator::Assign(AssignOperator::ModAssign),
        (Symbol::And, Symbol::Equal) => MusubuOperator::Assign(AssignOperator::AndAssign),
        (Symbol::Or, Symbol::Equal) => MusubuOperator::Assign(AssignOperator::OrAssign),
        (Symbol::Caret, Symbol::Equal) => MusubuOperator::Assign(AssignOperator::XorAssign),
        (Symbol::And, Symbol::And) => MusubuOperator::Logical(LogicalOperator::And),
        (Symbol::Or, Symbol::Or) => MusubuOperator::Logical(LogicalOperator::Or),
        (Symbol::Equal, Symbol::Equal) => MusubuOperator::Comparison(ComparisonOperator::Equal),
        (Symbol::Not, Symbol::Equal) => MusubuOperator::Comparison(ComparisonOperator::NotEqual),
        (Symbol::LessThan, Symbol::Equal) => MusubuOperator::Comparison(ComparisonOperator::LessThanEqual),
        (Symbol::GreaterThan, Symbol::Equal) => MusubuOperator::Comparison(ComparisonOperator::GreaterThanEqual),
        (Symbol::Dot, Symbol::Dot) => MusubuOperator::DotDot,
        (Symbol::LessThan, Symbol::Minus) => MusubuOperator::LeftArrow,
        (Symbol::Minus, Symbol::GreaterThan) => MusubuOperator::RightArrow,
        (Symbol::Colon, Symbol::Colon) => MusubuOperator::Path,
        _ => return None,
    };
    *it = k + 2;
    Some(op)
}

fn get_unary_operator<'a>(tokens: &Tokens<'a>, it: &mut usize) -> (res: Option<MusubuOperator>)
    requires
        *old(it) < tokens@.len(),
    ensures
        res == (match symbol_at(tokens_view(tokens@), *old(it) as int) {
            Some(a) => unary_of(a),
            None => None,
        }),
        *final(it) == if res is Some { *old(it) + 1 } else { *old(it) as int },
{
    let k = *it;
    let len = tokens.len();
    let pattern = match symbol_at_exec(tokens, k) { Some(s) => s, None => return None };
    let op = match pattern {
        Symbol::Plus => MusubuOperator::Binary(BinaryOperator::Addition),
        Symbol::Minus => MusubuOperator::Binary(BinaryOperator::Subtract),
        Symbol::Star => MusubuOperator::Binary(BinaryOperator::Multiply),
        Symbol::Slash => MusubuOperator::Binary(BinaryOperator::Divide),
        Symbol::Percent => MusubuOperator::Binary(BinaryOperator::Modulo),
        Symbol::And => MusubuOperator::Binary(BinaryOperator::And),
        Symbol::Or => MusubuOperator::Binary(BinaryOperator::Or),
        Symbol::Caret => MusubuOperator::Binary(BinaryOperator::Xor),
        Symbol::Equal => MusubuOperator::Assign(AssignOperator::Assign),
        Symbol::Not => MusubuOperator::Logical(LogicalOperator::Not),
        Symbol::GreaterThan => MusubuOperator::Comparison(ComparisonOperator::GreaterThan),
        Symbol::LessThan => MusubuOperator::Comparison(ComparisonOperator::LessThan),
        Symbol::Question => MusubuOperator::Question,
        Symbol::Dot => MusubuOperator::Dot,
        Symbol::LeftParenthesis => MusubuOperator::LeftParenthesis,
        Symbol::RightParenthesis => MusubuOperator::RightParenthesis,
        Symbol::LeftBrackets => MusubuOperator::LeftBrackets,
        Symbol::RightBrackets => MusubuOperator::RightBrackets,
        Symbol::LeftBrace => MusubuOperator::LeftBrace,
        Symbol::RightBrace => MusubuOperator::RightBrace,
        Symbol::Semicolon => MusubuOperator::Semicolon,
        Symbol::Comma => MusubuOperator::Comma,
        Symbol::Colon => MusubuOperator::Colon,
        Symbol::At => MusubuOperator::At,
        Symbol::Underscore => MusubuOperator::Underscore,
        _ => return None,
    };
    *it = k + 1;
    Some(op)
}

fn tokenize_operator<'a>(tokens: &Tokens<'a>, it: &mut usize, position: usize) -> (res: Result<MusubuToken, TokenStreamParseError>)
    requires
        *old(it) < tokens@.len(),
        position == tokens@[*old(it) as int].token_pos,
    ensures
        step_agrees(operator_step(tokens_view(tokens@), *old(it) as int), res, *final(it) as int),
        *final(it) <= tokens@.len(),
        res is Ok ==> *old(it) < *final(it),
{
    assert(tokens_view(tokens@)[*it as int] == tokens@[*it as int]@);
    let op = if let Some(op) = get_trinary_operator(tokens, it) {
        op
    } else if let Some(op) = get_binary_operator(tokens, it) {
        op
    } else if let Some(op) = get_unary_operator(tokens, it) {
        op
    } else {
        return Err(TokenStreamParseError::InvalidOperator);
    };
    Ok(MusubuToken { token_kind: MusubuTokenKind::Operator(op), position })
}

pub open spec fn prepend_stream(
    acc: Seq<MusubuTokenView>,
    r: Result<Seq<MusubuTokenView>, TokenStreamParseError>,
) -> Result<Seq<MusubuTokenView>, TokenStreamParseError> {
    match r {
        Ok(rest) => Ok(acc + rest),
        Err(e) => Err(e),
    }
}

/// Turns the raw tokens into the parser's tokens: identifiers joined with the numbers and `_`
/// after them, keywords, integer and float literals, and operators of up to three symbols;
/// line breaks and spaces are dropped.
pub fn tokenize<'a>(tokens: &Tokens<'a>) -> (res: Result<TokenStream, TokenStreamParseError>)
    ensures
        match res {
            Ok(stream) => spec_token_stream(tokens_view(tokens@)) == Ok::<
                Seq<MusubuTokenView>,
                TokenStreamParseError,
            >(musubu_tokens_view(stream.spec_tokens())) && stream.spec_index() == 0,
            Err(e) => spec_token_stream(tokens_view(tokens@)) == Err::<
                Seq<MusubuTokenView>,
                TokenStreamParseError,
            >(e),
        },
{
    let ghost ts = tokens_view(tokens@);
    let mut it: usize = 0;
    let mut new_tokens: Vec<MusubuToken> = Vec::new();
    while it < tokens.len()
        invariant
            ts == tokens_view(tokens@),
            it <= tokens@.len(),
            spec_token_stream(ts) == prepend_stream(musubu_tokens_view(new_tokens@), token_stream_from(ts, it as int)),
        decreases tokens@.len() - it,
    {
        let start = it;
        assert(ts[start as int] == tokens@[start as int]@);
        let position = tokens[it].token_pos;
        let result = match &tokens[it].token_kind {
            TokenKind::Identifier(_) => tokenize_identifier(tokens, &mut it, position),
            TokenKind::Number(_) => tokenize_number(tokens, &mut it, position),
            TokenKind::Symbol(_) => tokenize_operator(tokens, &mut it, position),
            _ => {
                proof {
                    lemma_token_run_end(ts, start as int, TokenClass::Blank);
                }
                eat_whitespace(tokens, &mut it);
                continue;
            },
        };
        let new_token = match result {
            Ok(t) => t,
            Err(e) => return Err(e),
        };
        let ghost before = new_tokens@;
        new_tokens.push(new_token);
        proof {
            assert(musubu_tokens_view(new_tokens@) =~= musubu_tokens_view(before) + seq![new_token@]);
            match token_stream_from(ts, it as int) {
                Ok(rest) => {
                    assert(musubu_tokens_view(before) + (seq![new_token@] + rest) =~= musubu_tokens_view(new_tokens@) + rest);
                },
                Err(e) => {},
            }
        }
    }
    proof {
        assert(musubu_tokens_view(new_tokens@) + Seq::<MusubuTokenView>::empty() =~= musubu_tokens_view(new_tokens@));
    }
    Ok(TokenStream::new(new_tokens))
}

/// The comparison that also holds on equality: `<=` for `<` and `>=` for `>`.
pub open spec fn or_equal(c: ComparisonOperator) -> Option<ComparisonOperator> {
    match c {
        ComparisonOperator::LessThan => Some(ComparisonOperator::LessThanEqual),
        ComparisonOperator::GreaterThan => Some(ComparisonOperator::GreaterThanEqual),
        _ => None,
    }
}

/// Operators of two symbols: different spellings name different operators; a strict
/// comparison symbol followed by `=` is the comparison that also holds on equality (`<=`,
/// `>=`); `==` compares for equality and `!=` for inequality.
pub proof fn law_two_symbol_operators(a: Symbol, b: Symbol, c: Symbol, d: Symbol)
    ensures
        binary_of(a, b) is Some && binary_of(a, b) == binary_of(c, d) ==> a == c && b == d,
        unary_of(a) matches Some(MusubuOperator::Comparison(k)) ==> (or_equal(k) is Some ==> binary_of(a, Symbol::Equal)
            == Some(MusubuOperator::Comparison(or_equal(k)->0))),
        binary_of(Symbol::Equal, Symbol::Equal) == Some(MusubuOperator::Comparison(ComparisonOperator::Equal)),
        binary_of(Symbol::Not, Symbol::Equal) == Some(MusubuOperator::Comparison(ComparisonOperator::NotEqual)),
{
}

} // verus!
