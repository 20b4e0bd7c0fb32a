use super::errors::TokenizeError;
use vstd::prelude::*;

verus! {

/// A smallest unit of source text, with the byte offset at which it starts.
#[derive(Debug, Clone, PartialEq, Eq, Hash)]
pub struct Token<'a> {
    pub token_kind: TokenKind<'a>,
    pub token_pos: usize,
}

#[derive(Debug, Clone, PartialEq, Eq, Hash)]
pub enum TokenKind<'a> {
    Identifier(&'a str),
    Number(&'a str),
    Symbol(Symbol),
    LineBreak(Vec<LineBreak>),
    WhiteSpace(Vec<Space>),
}

#[derive(Debug, Clone, Copy, PartialEq, Eq, Hash)]
pub enum LineBreak {
    CR,
    LF,
}

#[derive(Debug, Clone, Copy, PartialEq, Eq, Hash)]
pub enum Space {
    Space,
    Tab,
}

#[derive(Debug, Clone, Copy, PartialEq, Eq, Hash)]
pub enum Symbol {
    LeftParenthesis,  // (
    RightParenthesis,  // )
    LeftBrackets,  // [
    RightBrackets,  // ]
    LeftBrace,  // {
    RightBrace,  // }
    Plus,  // +
    Minus,  // -
    Star,  // *
    Slash,  // /
    Percent,  // %
    Equal,  // =
    Caret,  // ^
    Not,  // !
    And,  // &
    Or,  // |
    GreaterThan,  //  >
    LessThan,  // <
    At,  // @
    Dot,  // .
    Comma,  // ,
    Colon,  // :
    Semicolon,  // ;
    Underscore,  // _
    Pound,  // #
    Dollar,  // $
    Question,  // ?
    Tilde,  // ~
    SingleQuotation,  // '
    DoubleQuotation,  // "
    BackSlash,  // \
    Backtick,  // `
}

/// The abstract content of a token kind: texts as character sequences.
pub enum TokenKindView {
    Identifier(Seq<char>),
    Number(Seq<char>),
    Symbol(Symbol),
    LineBreak(Seq<LineBreak>),
    WhiteSpace(Seq<Space>),
}

pub struct TokenView {
    pub kind: TokenKindView,
    pub pos: usize,
}

impl<'a> View for TokenKind<'a> {
    type V = TokenKindView;

    open spec fn view(&self) -> TokenKindView {
        match self {
            TokenKind::Identifier(s) => TokenKindView::Identifier(s@),
            TokenKind::Number(s) => TokenKindView::Number(s@),
            TokenKind::Symbol(s) => TokenKindView::Symbol(*s),
            TokenKind::LineBreak(v) => TokenKindView::LineBreak(v@),
            TokenKind::WhiteSpace(v) => TokenKindView::WhiteSpace(v@),
        }
    }
}

impl<'a> View for Token<'a> {
    type V = TokenView;

    open spec fn view(&self) -> TokenView {
        TokenView { kind: self.token_kind@, pos: self.token_pos }
    }
}

/// The abstract contents of a token list.
pub open spec fn tokens_view<'a>(tokens: Seq<Token<'a>>) -> Seq<TokenView> {
    tokens.map_values(|t: Token<'a>| t@)
}

/// The symbol that a punctuation character stands for.
pub open spec fn symbol_of(c: char) -> Option<Symbol> {
    if c == '+' { Some(Symbol::Plus) }
    else if c == '-' { Some(Symbol::Minus) }
    else if c == '*' { Some(Symbol::Star) }
    else if c == '/' { Some(Symbol::Slash) }
    else if c == '%' { Some(Symbol::Percent) }
    else if c == '=' { Some(Symbol::Equal) }
    else if c == '^' { Some(Symbol::Caret) }
    else if c == '!' { Some(Symbol::Not) }
    else if c == '&' { Some(Symbol::And) }
    else if c == '|' { Some(Symbol::Or) }
    else if c == '>' { Some(Symbol::GreaterThan) }
    else if c == '<' { Some(Symbol::LessThan) }
    else if c == '@' { Some(Symbol::At) }
    else if c == '.' { Some(Symbol::Dot) }
    else if c == ',' { Some(Symbol::Comma) }
    else if c == ':' { Some(Symbol::Colon) }
    else if c == ';' { Some(Symbol::Semicolon) }
    else if c == '#' { Some(Symbol::Pound) }
    else if c == '$' { Some(Symbol::Dollar) }
    else if c == '?' { Some(Symbol::Question) }
    else if c == '~' { Some(Symbol::Tilde) }
    else if c == '(' { Some(Symbol::LeftParenthesis) }
    else if c == ')' { Some(Symbol::RightParenthesis) }
    else if c == '[' { Some(Symbol::LeftBrackets) }
    else if c == ']' { Some(Symbol::RightBrackets) }
    else if c == '{' { Some(Symbol::LeftBrace) }
    else if c == '}' { Some(Symbol::RightBrace) }
    else if c == '\'' { Some(Symbol::SingleQuotation) }
    else if c == '"' { Some(Symbol::DoubleQuotation) }
    else if c == '\\' { Some(Symbol::BackSlash) }
    else if c == '_' { Some(Symbol::Underscore) }
    else if c == '`' { Some(Symbol::Backtick) }
    else { None }
}

impl<'a> Token<'a> {
    /// The symbol of a symbol token, `None` for any other kind.
    pub fn get_operator(&self) -> (res: Option<&Symbol>)
        ensures
            match self.token_kind {
                TokenKind::Symbol(s) => res == Some(&s),
                _ => res is None,
            },
    {
        let TokenKind::Symbol(symbol) = &self.token_kind else {
            return None;
        };
        Some(symbol)
    }
}

impl Symbol {
    /// The symbol that the character `value` stands for.
    pub fn try_from(value: char) -> (res: Result<Self, TokenizeError>)
        ensures
            match symbol_of(value) {
                Some(s) => res == Ok::<Symbol, TokenizeError>(s),
                None => res == Err::<Symbol, TokenizeError>(TokenizeError::NotSymbol),
            },
    {
        let symbol = match value {
            '+' => Symbol::Plus,
            '-' => Symbol::Minus,
            '*' => Symbol::Star,
            '/' => Symbol::Slash,
            '%' => Symbol::Percent,
            '=' => Symbol::Equal,
            '^' => Symbol::Caret,
            '!' => Symbol::Not,
            '&' => Symbol::And,
            '|' => Symbol::Or,
            '>' => Symbol::GreaterThan,
            '<' => Symbol::LessThan,
            '@' => Symbol::At,
            '.' => Symbol::Dot,
            ',' => Symbol::Comma,
            ':' => Symbol::Colon,
            ';' => Symbol::Semicolon,
            '#' => Symbol::Pound,
            '$' => Symbol::Dollar,
            '?' => Symbol::Question,
            '~' => Symbol::Tilde,
            '(' => Symbol::LeftParenthesis,
            ')' => Symbol::RightParenthesis,
            '[' => Symbol::LeftBrackets,
            ']' => Symbol::RightBrackets,
            '{' => Symbol::LeftBrace,
            '}' => Symbol::RightBrace,
            '\'' => Symbol::SingleQuotation,
            '"' => Symbol::DoubleQuotation,
            '\\' => Symbol::BackSlash,
            '_' => Symbol::Underscore,
            '`' => Symbol::Backtick,
            _ => return Err(TokenizeError::NotSymbol),
        };
        Ok(symbol)
    }

    /// The symbol that the first character of `s` stands for.
    pub fn from_str(s: &str) -> (res: Result<Self, TokenizeError>)
        ensures
            s@.len() == 0 ==> res == Err::<Symbol, TokenizeError>(TokenizeError::NotSymbol),
            s@.len() > 0 ==> match symbol_of(s@[0]) {
                Some(sym) => res == Ok::<Symbol, TokenizeError>(sym),
                None => res == Err::<Symbol, TokenizeError>(TokenizeError::NotSymbol),
            },
    {
        if s.unicode_len() == 0 {
            return Err(TokenizeError::NotSymbol);
        }
        Self::try_from(s.get_char(0))
    }
}

} // verus!
