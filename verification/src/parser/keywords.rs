use super::errors::TokenStreamParseError;
use crate::chars::str_eq;
use vstd::prelude::*;

verus! {

#[derive(Debug, Clone, Copy, PartialEq, Eq, Hash)]
pub enum MusubuKeyword {
    Fn,
    Let,
    Ref,
    Mut,
    Const,
    Loop,
    For,
    While,
    If,
    Else,
    In,
    Impl,
    Return,
    Break,
    Continue,
    Struct,
    Union,
    Enum,
    Pub,
    Type,
    Match,
    Static,
    Extern,
    True,
    False,
}

/// The keyword spelled `s`, if any.
pub open spec fn keyword_of(s: Seq<char>) -> Option<MusubuKeyword> {
    if s == "let"@ { Some(MusubuKeyword::Let) }
    else if s == "ref"@ { Some(MusubuKeyword::Ref) }
    else if s == "mut"@ { Some(MusubuKeyword::Mut) }
    else if s == "pub"@ { Some(MusubuKeyword::Pub) }
    else if s == "fn"@ { Some(MusubuKeyword::Fn) }
    else if s == "struct"@ { Some(MusubuKeyword::Struct) }
    else if s == "enum"@ { Some(MusubuKeyword::Enum) }
    else if s == "union"@ { Some(MusubuKeyword::Union) }
    else if s == "const"@ { Some(MusubuKeyword::Const) }
    else if s == "if"@ { Some(MusubuKeyword::If) }
    else if s == "else"@ { Some(MusubuKeyword::Else) }
    else if s == "match"@ { Some(MusubuKeyword::Match) }
    else if s == "in"@ { Some(MusubuKeyword::In) }
    else if s == "for"@ { Some(MusubuKeyword::For) }
    else if s == "while"@ { Some(MusubuKeyword::While) }
    else if s == "loop"@ { Some(MusubuKeyword::Loop) }
    else if s == "break"@ { Some(MusubuKeyword::Break) }
    else if s == "continue"@ { Some(MusubuKeyword::Continue) }
    else if s == "return"@ { Some(MusubuKeyword::Return) }
    else if s == "type"@ { Some(MusubuKeyword::Type) }
    else if s == "static"@ { Some(MusubuKeyword::Static) }
    else if s == "extern"@ { Some(MusubuKeyword::Extern) }
    else if s == "impl"@ { Some(MusubuKeyword::Impl) }
    else if s == "true"@ { Some(MusubuKeyword::True) }
    else if s == "false"@ { Some(MusubuKeyword::False) }
    else { None }
}

impl MusubuKeyword {
    /// The keyword spelled `s`; `NotKeyword` for any other text.
    pub fn from_str(s: &str) -> (res: Result<Self, TokenStreamParseError>)
        ensures
            match keyword_of(s@) {
                Some(k) => res == Ok::<MusubuKeyword, TokenStreamParseError>(k),
                None => res == Err::<MusubuKeyword, TokenStreamParseError>(
                    TokenStreamParseError::NotKeyword,
                ),
            },
    {
        let keyword = if str_eq(s, "let") { MusubuKeyword::Let }
        else if str_eq(s, "ref") { MusubuKeyword::Ref }
        else if str_eq(s, "mut") { MusubuKeyword::Mut }
        else if str_eq(s, "pub") { MusubuKeyword::Pub }
        else if str_eq(s, "fn") { MusubuKeyword::Fn }
        else if str_eq(s, "struct") { MusubuKeyword::Struct }
        else if str_eq(s, "enum") { MusubuKeyword::Enum }
        else if str_eq(s, "union") { MusubuKeyword::Union }
        else if str_eq(s, "const") { MusubuKeyword::Const }
        else if str_eq(s, "if") { MusubuKeyword::If }
        else if str_eq(s, "else") { MusubuKeyword::Else }
        else if str_eq(s, "match") { MusubuKeyword::Match }
        else if str_eq(s, "in") { MusubuKeyword::In }
        else if str_eq(s, "for") { MusubuKeyword::For }
        else if str_eq(s, "while") { MusubuKeyword::While }
        else if str_eq(s, "loop") { MusubuKeyword::Loop }
        else if str_eq(s, "break") { MusubuKeyword::Break }
        else if str_eq(s, "continue") { MusubuKeyword::Continue }
        else if str_eq(s, "return") { MusubuKeyword::Return }
        else if str_eq(s, "type") { MusubuKeyword::Type }
        else if str_eq(s, "static") { MusubuKeyword::Static }
        else if str_eq(s, "extern") { MusubuKeyword::Extern }
        else if str_eq(s, "impl") { MusubuKeyword::Impl }
        else if str_eq(s, "true") { MusubuKeyword::True }
        else if str_eq(s, "false") { MusubuKeyword::False }
        else { return Err(TokenStreamParseError::NotKeyword) };
        Ok(keyword)
    }
}

} // verus!
