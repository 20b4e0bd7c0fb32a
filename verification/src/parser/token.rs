use super::errors::ParseError;
use super::keywords::MusubuKeyword;
use crate::ast::{AssignOperator, Literal, LogicalOperator, TypeKind};
use crate::primitive::{BinaryOperator, ComparisonOperator, PrimitiveType, TypeView};
use crate::span::Span;
use vstd::prelude::*;

verus! {

/// A token of the parser, with the byte offset at which it starts.
#[derive(Debug, Clone, PartialEq, Eq, Hash)]
pub struct MusubuToken {
    pub token_kind: MusubuTokenKind,
    pub position: usize,
}

#[derive(Debug, Clone, PartialEq, Eq, Hash)]
pub enum MusubuTokenKind {
    Identifier(String),
    Keyword(MusubuKeyword),
    Literal(MusubuLiteral),
    Operator(MusubuOperator),
}

#[derive(Debug, Clone, PartialEq, Eq, Hash)]
pub enum MusubuLiteral {
    Integer { value: String, suffix: Option<String> },
    Float(FloatLiteral),
    String(String),
}

#[derive(Debug, Clone, PartialEq, Eq, Hash)]
pub enum FloatLiteral {
    Float { value: String, suffix: Option<String> },
    Exponent {
        is_plus_exponent: bool,
        /// The digits before the exponent.
        significand: String,
        /// The digits of the exponent.
        exponent: String,
        suffix: Option<String>,
    },
}

#[derive(Debug, Clone, Copy, PartialEq, Eq, Hash)]
pub enum MusubuOperator {
    Binary(BinaryOperator),
    Assign(AssignOperator),
    Comparison(ComparisonOperator),
    Logical(LogicalOperator),
    Question,  // ?
    Dot,  // .
    DotDot,  // ..
    DotDotDot,  // ...
    LeftArrow,  // <-
    RightArrow,  // ->
    Path,  // ::
    LeftParenthesis,  // (
    RightParenthesis,  // )
    LeftBrackets,  // [
    RightBrackets,  // ]
    LeftBrace,  // {
    RightBrace,  // }
    Colon,  // :
    Semicolon,  // ;
    Comma,  // ,
    At,  // @
    Underscore,  // _
}

pub type BindingPower = u16;

/// The abstract content of a parser token: texts as character sequences.
pub enum FloatLiteralView {
    Float { value: Seq<char>, suffix: Option<Seq<char>> },
    Exponent {
        is_plus_exponent: bool,
        significand: Seq<char>,
        exponent: Seq<char>,
        suffix: Option<Seq<char>>,
    },
}

pub enum LiteralView {
    Integer { value: Seq<char>, suffix: Option<Seq<char>> },
    Float(FloatLiteralView),
    String(Seq<char>),
}

pub enum MusubuTokenKindView {
    Identifier(Seq<char>),
    Keyword(MusubuKeyword),
    Literal(LiteralView),
    Operator(MusubuOperator),
}

pub struct MusubuTokenView {
    pub kind: MusubuTokenKindView,
    pub position: usize,
}

pub open spec fn opt_view(s: Option<String>) -> Option<Seq<char>> {
    match s {
        Some(x) => Some(x@),
        None => None,
    }
}

impl View for FloatLiteral {
    type V = FloatLiteralView;

    open spec fn view(&self) -> FloatLiteralView {
        match self {
            FloatLiteral::Float { value, suffix } => FloatLiteralView::Float {
                value: value@,
                suffix: opt_view(*suffix),
            },
            FloatLiteral::Exponent { is_plus_exponent, significand, exponent, suffix } =>
                FloatLiteralView::Exponent {
                is_plus_exponent: *is_plus_exponent,
                significand: significand@,
                exponent: exponent@,
                suffix: opt_view(*suffix),
            },
        }
    }
}

impl View for MusubuLiteral {
    type V = LiteralView;

    open spec fn view(&self) -> LiteralView {
        match self {
            MusubuLiteral::Integer { value, suffix } => LiteralView::Integer {
                value: value@,
                suffix: opt_view(*suffix),
            },
            MusubuLiteral::Float(f) => LiteralView::Float(f@),
            MusubuLiteral::String(s) => LiteralView::String(s@),
        }
    }
}

impl View for MusubuTokenKind {
    type V = MusubuTokenKindView;

    open spec fn view(&self) -> MusubuTokenKindView {
        match self {
            MusubuTokenKind::Identifier(s) => MusubuTokenKindView::Identifier(s@),
            MusubuTokenKind::Keyword(k) => MusubuTokenKindView::Keyword(*k),
            MusubuTokenKind::Literal(l) => MusubuTokenKindView::Literal(l@),
            MusubuTokenKind::Operator(o) => MusubuTokenKindView::Operator(*o),
        }
    }
}

impl View for MusubuToken {
    type V = MusubuTokenView;

    open spec fn view(&self) -> MusubuTokenView {
        MusubuTokenView { kind: self.token_kind@, position: self.position }
    }
}

/// The type that a literal's suffix names, or `default` without a suffix.
pub open spec fn literal_type_is(t: TypeKind, suffix: Option<Seq<char>>, default: PrimitiveType) -> bool {
    match suffix {
        Some(s) => t matches TypeKind::PathType(p) && p.span == Span::zero() && p.node.segments@.len()
            == 1 && p.node.segments@[0].span == Span::zero() && p.node.segments@[0].node.ident@ == s
            && p.node.segments@[0].node.arguments@.len() == 0,
        None => t matches TypeKind::Primitive(ty) && ty@ == default@,
    }
}

fn make_type(suffix: Option<String>, default_type: PrimitiveType) -> (t: TypeKind)
    ensures
        literal_type_is(t, opt_view(suffix), default_type),
{
    match suffix {
        Some(s) => TypeKind::make_single_type(s, Span::default()),
        None => TypeKind::Primitive(default_type),
    }
}

impl MusubuLiteral {
    /// The literal of the syntax tree for this token literal. A suffix names the literal's type;
    /// integers default to `i32`, floats to `f32`, strings are pointers to `u8`.
    /// An exponent literal's value is `exponent_value`, the decimal text of its number that the
    /// caller computed in floating point, or the error of that computation.
    pub fn to_literal(self, exponent_value: Result<String, ParseError>) -> (res: Result<Literal, ParseError>)
        ensures
            match self@ {
                LiteralView::Integer { value, suffix } => res matches Ok(Literal::Integer { value: v, value_type })
                    && v@ == value && literal_type_is(value_type, suffix, PrimitiveType::Integer { signed: true, byte: 4 }),
                LiteralView::Float(FloatLiteralView::Float { value, suffix }) => res matches Ok(Literal::Float { value: v, value_type })
                    && v@ == value && literal_type_is(value_type, suffix, PrimitiveType::Float { byte: 4 }),
                LiteralView::Float(FloatLiteralView::Exponent { suffix, .. }) => match exponent_value {
                    Ok(x) => res matches Ok(Literal::Float { value: v, value_type })
                        && v@ == x@ && literal_type_is(value_type, suffix, PrimitiveType::Float { byte: 4 }),
                    Err(e) => res == Err::<Literal, ParseError>(e),
                },
                LiteralView::String(value) => res matches Ok(Literal::String { value: v, value_type })
                    && v@ == value && (value_type matches TypeKind::Primitive(ty) && ty == PrimitiveType::Pointer {
                        point: Box::new(PrimitiveType::Integer { signed: false, byte: 1 }) }),
            },
    {
        let literal = match self {
            MusubuLiteral::Integer { value, suffix } => Literal::Integer {
                value,
                value_type: make_type(suffix, PrimitiveType::Integer { signed: true, byte: 4 }),
            },
            MusubuLiteral::Float(float_value) => match float_value {
                FloatLiteral::Float { value, suffix } => Literal::Float {
                    value,
                    value_type: make_type(suffix, PrimitiveType::Float { byte: 4 }),
                },
                FloatLiteral::Exponent { suffix, .. } => {
                    let value = match exponent_value {
                        Ok(v) => v,
                        Err(e) => return Err(e),
                    };
                    Literal::Float { value, value_type: make_type(suffix, PrimitiveType::Float { byte: 4 }) }
                },
            },
            MusubuLiteral::String(value) => Literal::String {
                value,
                value_type: TypeKind::Primitive(
                    PrimitiveType::Pointer {
                        point: Box::new(PrimitiveType::Integer { signed: false, byte: 1 }),
                    },
                ),
            },
        };
        Ok(literal)
    }
}

impl MusubuOperator {
    /// Every operator but `,`, `;` and `:` can stand in an expression.
    pub fn enable_operator(&self) -> (r: bool)
        ensures
            r == !(*self is Comma || *self is Semicolon || *self is Colon),
    {
        !matches!(self, Self::Comma | Self::Semicolon | Self::Colon)
    }

    /// Binding power of a prefix operator: unary minus and `!`.
    pub fn get_prefix_binding_power(&self) -> (r: Option<BindingPower>)
        ensures
            r == (if *self == MusubuOperator::Binary(BinaryOperator::Subtract) || *self
                == MusubuOperator::Logical(LogicalOperator::Not) {
                Some(170u16)
            } else {
                None::<u16>
            }),
    {
        let bp = match self {
            Self::Binary(BinaryOperator::Subtract) | Self::Logical(LogicalOperator::Not) => 170,
            _ => return None,
        };
        Some(bp)
    }

    /// Left and right binding powers of an infix operator.
    pub fn get_infix_binding_power(&self) -> (r: Option<(u16, u16)>)
        ensures
            r == spec_infix_binding_power(*self),
    {
        let bp = match self {
            Self::Dot => (200, 201),
            Self::LeftParenthesis => (190, 191),
            Self::Binary(op) => match op {
                BinaryOperator::Multiply | BinaryOperator::Divide | BinaryOperator::Modulo => (160, 161),
                BinaryOperator::Addition | BinaryOperator::Subtract => (159, 160),
                BinaryOperator::LeftShift | BinaryOperator::RightShift => (158, 159),
                BinaryOperator::And => (157, 158),
                BinaryOperator::Xor => (156, 157),
                BinaryOperator::Or => (155, 156),
            },
            Self::Comparison(_) => (140, 141),
            Self::Logical(op) => match op {
                LogicalOperator::And => (130, 131),
                LogicalOperator::Or => (129, 130),
                _ => return None,
            },
            // assignment associates to the right, so its left power is the larger
            Self::Assign(_) => (100, 99),
            _ => return None,
        };
        Some(bp)
    }

    /// Binding power of a postfix operator: call, index and `?`.
    pub fn get_postfix_binding_power(&self) -> (r: Option<u16>)
        ensures
            r == (match *self {
                MusubuOperator::LeftParenthesis | MusubuOperator::LeftBrackets => Some(190u16),
                MusubuOperator::Question => Some(189u16),
                _ => None::<u16>,
            }),
    {
        let bp = match self {
            Self::LeftParenthesis | Self::LeftBrackets => 190,
            Self::Question => 189,
            _ => return None,
        };
        Some(bp)
    }

    /// The closing bracket of an opening bracket.
    pub fn counterpart_of(&self) -> (r: Option<Self>)
        ensures
            r == (match *self {
                MusubuOperator::LeftParenthesis => Some(MusubuOperator::RightParenthesis),
                MusubuOperator::LeftBrackets => Some(MusubuOperator::RightBrackets),
                MusubuOperator::LeftBrace => Some(MusubuOperator::RightBrace),
                _ => None::<MusubuOperator>,
            }),
    {
        let pair = match self {
            Self::LeftParenthesis => Self::RightParenthesis,
            Self::LeftBrackets => Self::RightBrackets,
            Self::LeftBrace => Self::RightBrace,
            _ => return None,
        };
        Some(pair)
    }
}

pub open spec fn spec_infix_binding_power(op: MusubuOperator) -> Option<(u16, u16)> {
    match op {
        MusubuOperator::Dot => Some((200u16, 201u16)),
        MusubuOperator::LeftParenthesis => Some((190u16, 191u16)),
        MusubuOperator::Binary(b) => Some(
            match b {
                BinaryOperator::Multiply | BinaryOperator::Divide | BinaryOperator::Modulo => (160u16, 161u16),
                BinaryOperator::Addition | BinaryOperator::Subtract => (159u16, 160u16),
                BinaryOperator::LeftShift | BinaryOperator::RightShift => (158u16, 159u16),
                BinaryOperator::And => (157u16, 158u16),
                BinaryOperator::Xor => (156u16, 157u16),
                BinaryOperator::Or => (155u16, 156u16),
            },
        ),
        MusubuOperator::Comparison(_) => Some((140u16, 141u16)),
        MusubuOperator::Logical(LogicalOperator::And) => Some((130u16, 131u16)),
        MusubuOperator::Logical(LogicalOperator::Or) => Some((129u16, 130u16)),
        MusubuOperator::Assign(_) => Some((100u16, 99u16)),
        _ => None,
    }
}

/// Whether the operator parser, having read `first` and its left operand, reads an operator
/// `second` that follows into the right operand of `first`: it stops the right operand at an
/// operator whose left binding power is below the right binding power of `first`.
pub open spec fn groups_right(first: MusubuOperator, second: MusubuOperator) -> bool {
    match (spec_infix_binding_power(first), spec_infix_binding_power(second)) {
        (Some((_, r)), Some((l, _))) => l >= r,
        _ => false,
    }
}

pub open spec fn additive(b: BinaryOperator) -> bool {
    b is Addition || b is Subtract
}

pub open spec fn multiplicative(b: BinaryOperator) -> bool {
    b is Multiply || b is Divide || b is Modulo
}

/// How infix operators group. Operators of one level associate to the left: `a - b - c` is
/// `(a - b) - c`, and likewise for `*`, `/`, `%`, comparisons and `&&`. Multiplication binds
/// tighter than addition: `a + b * c` is `a + (b * c)` and `a * b + c` is `(a * b) + c`.
/// Comparison binds tighter than `&&` and `||`. Assignment associates to the right:
/// `a = b = c` is `a = (b = c)`.
pub proof fn law_operator_grouping(
    a: BinaryOperator,
    b: BinaryOperator,
    c: ComparisonOperator,
    d: ComparisonOperator,
    l: LogicalOperator,
    x: AssignOperator,
    y: AssignOperator,
)
    ensures
        spec_infix_binding_power(MusubuOperator::Binary(a)) is Some,
        additive(a) && additive(b) ==> !groups_right(MusubuOperator::Binary(a), MusubuOperator::Binary(b)),
        multiplicative(a) && multiplicative(b) ==> !groups_right(MusubuOperator::Binary(a), MusubuOperator::Binary(b)),
        additive(a) && multiplicative(b) ==> groups_right(MusubuOperator::Binary(a), MusubuOperator::Binary(b)),
        multiplicative(a) && additive(b) ==> !groups_right(MusubuOperator::Binary(a), MusubuOperator::Binary(b)),
        !groups_right(MusubuOperator::Binary(a), MusubuOperator::Binary(a)),
        !groups_right(MusubuOperator::Comparison(c), MusubuOperator::Comparison(d)),
        !groups_right(MusubuOperator::Logical(LogicalOperator::And), MusubuOperator::Logical(LogicalOperator::And)),
        !(l is Not) ==> groups_right(MusubuOperator::Logical(l), MusubuOperator::Comparison(c)) && !groups_right(
            MusubuOperator::Comparison(c),
            MusubuOperator::Logical(l),
        ),
        groups_right(MusubuOperator::Assign(x), MusubuOperator::Assign(y)),
{
}

/// The precedence of the arithmetic and bit operators, tightest first: `* / %`, then `+ -`,
/// then the shifts, then `&`, `^` and `|`.
pub open spec fn precedence(b: BinaryOperator) -> int {
    match b {
        BinaryOperator::Multiply | BinaryOperator::Divide | BinaryOperator::Modulo => 5,
        BinaryOperator::Addition | BinaryOperator::Subtract => 4,
        BinaryOperator::LeftShift | BinaryOperator::RightShift => 3,
        BinaryOperator::And => 2,
        BinaryOperator::Xor => 1,
        BinaryOperator::Or => 0,
    }
}

/// After `a`, an arithmetic or bit operator `b` is read into the right operand of `a` exactly
/// when `b` binds tighter than `a`; all of them bind tighter than a comparison, which binds
/// tighter than an assignment.
pub proof fn law_operator_precedence(a: BinaryOperator, b: BinaryOperator, c: ComparisonOperator, x: AssignOperator)
    ensures
        groups_right(MusubuOperator::Binary(a), MusubuOperator::Binary(b)) <==> precedence(b) > precedence(a),
        groups_right(MusubuOperator::Comparison(c), MusubuOperator::Binary(b)),
        !groups_right(MusubuOperator::Binary(b), MusubuOperator::Comparison(c)),
        groups_right(MusubuOperator::Assign(x), MusubuOperator::Comparison(c)),
        !groups_right(MusubuOperator::Comparison(c), MusubuOperator::Assign(x)),
{
}

} // verus!
