use super::errors::ParseError;
use super::keywords::MusubuKeyword;
use super::lexer::{musubu_tokens_view, spec_token_stream, tokenize, TokenStream};
use super::token::{
    spec_infix_binding_power, MusubuLiteral, MusubuOperator, MusubuToken, MusubuTokenKind, MusubuTokenKindView,
};
use crate::ast::{
    node_variant, same_node, ASTNode, AssignOperator, EnumItem, Expression, FunctionParam, Item, Literal,
    LogicalOperator, LoopExpr, NodeMaker, Path, PathSegment, Pattern, SpannedBox, SpannedVec, Statement,
    StructField, TypeKind, Visibility,
};
use crate::lexer::token::tokens_view;
use crate::lexer::Tokens;
use crate::primitive::{BinaryOperator, ComparisonOperator, PrimitiveType};
use crate::span::{Span, Spanned};
use vstd::prelude::*;

verus! {

/// Slots of the memo table at each position of the token stream: one for each rule.
pub const RULE_COUNT: usize = 64;

pub const RULE_ITEM: usize = 0;
pub const RULE_VIS_ITEM: usize = 1;
pub const RULE_VISIBILITY: usize = 2;
pub const RULE_FUNCTION: usize = 3;
pub const RULE_FUNCTION_PARAMETERS: usize = 4;
pub const RULE_FUNCTION_PARAM: usize = 5;
pub const RULE_FUNCTION_PARAM_PATTERN: usize = 6;
pub const RULE_FUNCTION_RETURN_TYPE: usize = 7;
pub const RULE_STRUCT: usize = 8;
pub const RULE_STRUCT_STRUCT: usize = 9;
pub const RULE_STRUCT_FIELDS: usize = 10;
pub const RULE_STRUCT_FIELD: usize = 11;
pub const RULE_TUPLE_STRUCT: usize = 12;
pub const RULE_TUPLE_FIELDS: usize = 13;
pub const RULE_TUPLE_FIELD: usize = 14;
pub const RULE_ENUMERATION: usize = 15;
pub const RULE_ENUM_ITEMS: usize = 16;
pub const RULE_ENUM_ITEM: usize = 17;
pub const RULE_ENUM_ITEM_TUPLE: usize = 18;
pub const RULE_ENUM_ITEM_STRUCT: usize = 19;
pub const RULE_ENUM_ITEM_DISCRIMINANT: usize = 20;
pub const RULE_TYPE: usize = 21;
pub const RULE_TYPE_NO_BOUNDS: usize = 22;
pub const RULE_TYPE_PATH: usize = 23;
pub const RULE_TYPE_PATH_SEGMENT: usize = 24;
pub const RULE_TYPE_PATH_FN: usize = 25;
pub const RULE_TYPE_PATH_FN_INPUTS: usize = 26;
pub const RULE_EXPRESSION: usize = 27;
pub const RULE_EXPRESSION_WITHOUT_BLOCK: usize = 28;
pub const RULE_LITERAL_EXPRESSION: usize = 29;
pub const RULE_PATH_EXPRESSION: usize = 30;
pub const RULE_CONTINUE_EXPRESSION: usize = 31;
pub const RULE_BREAK_EXPRESSION: usize = 32;
pub const RULE_RETURN_EXPRESSION: usize = 33;
pub const RULE_EXPRESSION_WITH_BLOCK: usize = 34;
pub const RULE_BLOCK_EXPRESSION: usize = 35;
pub const RULE_LOOP_EXPRESSION: usize = 36;
pub const RULE_IF_EXPRESSION: usize = 37;
pub const RULE_STATEMENTS: usize = 38;
pub const RULE_STATEMENT: usize = 39;
pub const RULE_SEMICOLON: usize = 40;
pub const RULE_LET_STATEMENT: usize = 41;
pub const RULE_EXPRESSION_STATEMENT: usize = 42;
pub const RULE_CALL_PARAMS: usize = 43;
pub const RULE_PATH_IN_EXPRESSION: usize = 44;
pub const RULE_PATH_EXPR_SEGMENT: usize = 45;
pub const RULE_PATH_IDENT_SEGMENT: usize = 46;
pub const RULE_GENERIC_ARGS: usize = 47;
pub const RULE_GENERIC_ARG: usize = 48;
pub const RULE_GENERIC_ARGS_CONST: usize = 49;
pub const RULE_GENERIC_ARGS_BINDING: usize = 50;
pub const RULE_GENERIC_ARGS_BOUNDS: usize = 51;
pub const RULE_SIMPLE_PATH: usize = 52;
pub const RULE_SIMPLE_PATH_SEGMENT: usize = 53;
pub const RULE_QUALIFIED_PATH_IN_EXPRESSION: usize = 54;
pub const RULE_QUALIFIED_PATH_TYPE: usize = 55;
pub const RULE_INFINITE_LOOP_EXPRESSION: usize = 56;
pub const RULE_PREDICATE_LOOP_EXPRESSION: usize = 57;
pub const RULE_ITERATOR_LOOP_EXPRESSION: usize = 58;
pub const RULE_PATTERN: usize = 59;
pub const RULE_PATTERN_NO_TOP_ALT: usize = 60;
pub const RULE_PATTERN_WITHOUT_RANGE: usize = 61;
pub const RULE_LITERAL_PATTERN: usize = 62;
pub const RULE_IDENTIFIER_PATTERN: usize = 63;
/// The operator parser keeps no memo; its key only marks where a span starts.
pub const RULE_PRATT: usize = 64;

/// The name of a rule, as the grammar writes it; `<unknown>` past the last rule.
pub open spec fn spec_rule_name(rule: usize) -> &'static str {
    match rule {
        0 => "Item",
        1 => "VisItem",
        2 => "Visibility",
        3 => "Function",
        4 => "FunctionParameters",
        5 => "FunctionParam",
        6 => "FunctionParamPattern",
        7 => "FunctionReturnType",
        8 => "Struct",
        9 => "StructStruct",
        10 => "StructFields",
        11 => "StructField",
        12 => "TupleStruct",
        13 => "TupleFields",
        14 => "TupleField",
        15 => "Enumeration",
        16 => "EnumItems",
        17 => "EnumItem",
        18 => "EnumItemTuple",
        19 => "EnumItemStruct",
        20 => "EnumItemDiscriminant",
        21 => "Type",
        22 => "TypeNoBounds",
        23 => "TypePath",
        24 => "TypePathSegment",
        25 => "TypePathFn",
        26 => "TypePathFnInputs",
        27 => "Expression",
        28 => "ExpressionWithoutBlock",
        29 => "LiteralExpression",
        30 => "PathExpression",
        31 => "ContinueExpression",
        32 => "BreakExpression",
        33 => "ReturnExpression",
        34 => "ExpressionWithBlock",
        35 => "BlockExpression",
        36 => "LoopExpression",
        37 => "IfExpression",
        38 => "Statements",
        39 => "Statement",
        40 => ";",
        41 => "LetStatement",
        42 => "ExpressionStatement",
        43 => "CallParams",
        44 => "PathInExpression",
        45 => "PathExprSegment",
        46 => "PathIdentSegment",
        47 => "GenericArgs",
        48 => "GenericArg",
        49 => "GenericArgsConst",
        50 => "GenericArgsBinding",
        51 => "GenericArgsBounds",
        52 => "SimplePath",
        53 => "SimplePathSegment",
        54 => "QualifiedPathInExpression",
        55 => "OperatorExpression",
        56 => "InfiniteLoopExpression",
        57 => "PredicateLoopExpression",
        58 => "IteratorLoopExpression",
        59 => "Pattern",
        60 => "PatternNoTopAlt",
        61 => "PatternWithoutRange",
        62 => "LiteralPattern",
        63 => "IDENTIFIERPattern",
        64 => "<Pratt>",
        _ => "<unknown>",
    }
}

/// The name of a rule, as the grammar writes it.
pub fn rule_name(rule: usize) -> (name: &'static str)
    ensures
        name == spec_rule_name(rule),
{
    match rule {
            0 => "Item",
            1 => "VisItem",
            2 => "Visibility",
            3 => "Function",
            4 => "FunctionParameters",
            5 => "FunctionParam",
            6 => "FunctionParamPattern",
            7 => "FunctionReturnType",
            8 => "Struct",
            9 => "StructStruct",
            10 => "StructFields",
            11 => "StructField",
            12 => "TupleStruct",
            13 => "TupleFields",
            14 => "TupleField",
            15 => "Enumeration",
            16 => "EnumItems",
            17 => "EnumItem",
            18 => "EnumItemTuple",
            19 => "EnumItemStruct",
            20 => "EnumItemDiscriminant",
            21 => "Type",
            22 => "TypeNoBounds",
            23 => "TypePath",
            24 => "TypePathSegment",
            25 => "TypePathFn",
            26 => "TypePathFnInputs",
            27 => "Expression",
            28 => "ExpressionWithoutBlock",
            29 => "LiteralExpression",
            30 => "PathExpression",
            31 => "ContinueExpression",
            32 => "BreakExpression",
            33 => "ReturnExpression",
            34 => "ExpressionWithBlock",
            35 => "BlockExpression",
            36 => "LoopExpression",
            37 => "IfExpression",
            38 => "Statements",
            39 => "Statement",
            40 => ";",
            41 => "LetStatement",
            42 => "ExpressionStatement",
            43 => "CallParams",
            44 => "PathInExpression",
            45 => "PathExprSegment",
            46 => "PathIdentSegment",
            47 => "GenericArgs",
            48 => "GenericArg",
            49 => "GenericArgsConst",
            50 => "GenericArgsBinding",
            51 => "GenericArgsBounds",
            52 => "SimplePath",
            53 => "SimplePathSegment",
            54 => "QualifiedPathInExpression",
            55 => "OperatorExpression",
            56 => "InfiniteLoopExpression",
            57 => "PredicateLoopExpression",
            58 => "IteratorLoopExpression",
            59 => "Pattern",
            60 => "PatternNoTopAlt",
            61 => "PatternWithoutRange",
            62 => "LiteralPattern",
            63 => "IDENTIFIERPattern",
            64 => "<Pratt>",
        _ => "<unknown>",
    }
}

/// Which nodes a rule produces: the variants of `ASTNode`, numbered as `node_variant` does.
pub open spec fn rule_kind(rule: usize, n: ASTNode) -> bool {
    let v = node_variant(n);
    if rule == RULE_ITEM || rule == RULE_VIS_ITEM || rule == RULE_FUNCTION || rule == RULE_STRUCT
        || rule == RULE_STRUCT_STRUCT || rule == RULE_ENUMERATION {
        v == 0
    } else if rule == RULE_FUNCTION_PARAMETERS {
        v == 16
    } else if rule == RULE_FUNCTION_PARAM || rule == RULE_FUNCTION_PARAM_PATTERN {
        v == 15
    } else if rule == RULE_FUNCTION_RETURN_TYPE || rule == RULE_TYPE || rule == RULE_TYPE_NO_BOUNDS
        || rule == RULE_TYPE_PATH || rule == RULE_TYPE_PATH_FN || rule == RULE_GENERIC_ARGS_BINDING
        || rule == RULE_GENERIC_ARGS_BOUNDS || rule == RULE_QUALIFIED_PATH_TYPE {
        v == 2
    } else if rule == RULE_STRUCT_FIELDS || rule == RULE_ENUM_ITEM_STRUCT {
        v == 10
    } else if rule == RULE_STRUCT_FIELD {
        v == 9
    } else if rule == RULE_ENUM_ITEMS {
        v == 12
    } else if rule == RULE_ENUM_ITEM {
        v == 11
    } else if rule == RULE_TYPE_PATH_SEGMENT || rule == RULE_PATH_EXPR_SEGMENT {
        v == 17
    } else if rule == RULE_TYPE_PATH_FN_INPUTS || rule == RULE_GENERIC_ARGS {
        v == 21
    } else if RULE_EXPRESSION <= rule <= RULE_IF_EXPRESSION || rule == RULE_PRATT {
        v == 1
    } else if rule == RULE_STATEMENTS {
        v == 7
    } else if RULE_STATEMENT <= rule <= RULE_EXPRESSION_STATEMENT {
        v == 6
    } else if rule == RULE_CALL_PARAMS {
        v == 14
    } else if rule == RULE_PATH_IN_EXPRESSION || rule == RULE_SIMPLE_PATH
        || rule == RULE_QUALIFIED_PATH_IN_EXPRESSION {
        v == 19
    } else if rule == RULE_PATH_IDENT_SEGMENT || rule == RULE_SIMPLE_PATH_SEGMENT {
        v == 20
    } else if rule == RULE_GENERIC_ARG {
        v == 2 || v == 1 || v == 20
    } else if rule == RULE_GENERIC_ARGS_CONST {
        v == 1 || v == 20
    } else if RULE_INFINITE_LOOP_EXPRESSION <= rule <= RULE_ITERATOR_LOOP_EXPRESSION {
        v == 4
    } else if RULE_PATTERN <= rule <= RULE_IDENTIFIER_PATTERN {
        v == 8
    } else {
        false
    }
}

/// The tokens `struct NAME { }` from `p` on.
pub open spec fn empty_struct_at(toks: Seq<MusubuToken>, p: int) -> bool {
    &&& kind_at(toks, p) == Some(MusubuTokenKind::Keyword(MusubuKeyword::Struct))
    &&& kind_at(toks, p + 1) matches Some(MusubuTokenKind::Identifier(_))
    &&& kind_at(toks, p + 2) == Some(MusubuTokenKind::Operator(MusubuOperator::LeftBrace))
    &&& kind_at(toks, p + 3) == Some(MusubuTokenKind::Operator(MusubuOperator::RightBrace))
}

/// The rules that a function's parameter list tries, each with the rules it tries in turn:
/// the group of `g` holds `r`.
pub open spec fn param_group(g: usize, r: usize) -> bool {
    let type_rules = r == RULE_TYPE || r == RULE_TYPE_NO_BOUNDS || r == RULE_TYPE_PATH || r
        == RULE_TYPE_PATH_SEGMENT || r == RULE_PATH_IDENT_SEGMENT;
    let pattern_rules = r == RULE_PATTERN_NO_TOP_ALT || r == RULE_PATTERN_WITHOUT_RANGE || r
        == RULE_LITERAL_PATTERN || r == RULE_IDENTIFIER_PATTERN;
    if g == RULE_PATH_IDENT_SEGMENT || g == RULE_LITERAL_PATTERN || g == RULE_IDENTIFIER_PATTERN {
        r == g
    } else if g == RULE_TYPE_PATH_SEGMENT {
        r == RULE_TYPE_PATH_SEGMENT || r == RULE_PATH_IDENT_SEGMENT
    } else if g == RULE_TYPE_PATH {
        r == RULE_TYPE_PATH || r == RULE_TYPE_PATH_SEGMENT || r == RULE_PATH_IDENT_SEGMENT
    } else if g == RULE_TYPE_NO_BOUNDS {
        r == RULE_TYPE_NO_BOUNDS || r == RULE_TYPE_PATH || r == RULE_TYPE_PATH_SEGMENT || r
            == RULE_PATH_IDENT_SEGMENT
    } else if g == RULE_TYPE {
        type_rules
    } else if g == RULE_PATTERN_WITHOUT_RANGE {
        r == RULE_PATTERN_WITHOUT_RANGE || r == RULE_LITERAL_PATTERN || r == RULE_IDENTIFIER_PATTERN
    } else if g == RULE_PATTERN_NO_TOP_ALT {
        pattern_rules
    } else if g == RULE_FUNCTION_PARAM_PATTERN {
        r == RULE_FUNCTION_PARAM_PATTERN || pattern_rules
    } else if g == RULE_FUNCTION_PARAM {
        r == RULE_FUNCTION_PARAM || r == RULE_FUNCTION_PARAM_PATTERN || pattern_rules || type_rules
    } else if g == RULE_FUNCTION_PARAMETERS {
        r == RULE_FUNCTION_PARAMETERS || r == RULE_FUNCTION_PARAM || r == RULE_FUNCTION_PARAM_PATTERN
            || pattern_rules || type_rules
    } else {
        false
    }
}

/// The tokens `fn NAME ( ) ;` from `p` on: a function declared without parameters or body.
/// The node of a function declaration without parameters, return type or body.
pub open spec fn declaration_node(n: ASTNode) -> bool {
    n matches ASTNode::Item { item, .. } && (item.node matches Item::Function { params, return_type, body, .. }
        && params@.len() == 0 && return_type is None && body is None)
}

pub open spec fn declaration_at(toks: Seq<MusubuToken>, p: int) -> bool {
    &&& kind_at(toks, p) == Some(MusubuTokenKind::Keyword(MusubuKeyword::Fn))
    &&& kind_at(toks, p + 1) matches Some(MusubuTokenKind::Identifier(_))
    &&& kind_at(toks, p + 2) == Some(MusubuTokenKind::Operator(MusubuOperator::LeftParenthesis))
    &&& kind_at(toks, p + 3) == Some(MusubuTokenKind::Operator(MusubuOperator::RightParenthesis))
    &&& kind_at(toks, p + 4) == Some(MusubuTokenKind::Operator(MusubuOperator::Semicolon))
}

/// Nothing final is recorded: no entry, or the rule is being parsed.
pub open spec fn unsettled(e: Option<MemoResult>) -> bool {
    e is None || e == Some(MemoResult::Pending)
}

/// A token that the operator parser reads on: a postfix or an infix operator.
pub open spec fn continues_expression(k: Option<MusubuTokenKind>) -> bool {
    match k {
        Some(MusubuTokenKind::Operator(op)) => op is LeftParenthesis || op is LeftBrackets || op is Question
            || spec_infix_binding_power(op) is Some,
        _ => false,
    }
}

/// What a rule has recorded, or produced, at a position.
pub enum Memo {
    ASTNode(ASTNode),
}

/// The state of a rule at a position: being parsed, failed, or matched up to `next_position`.
pub enum MemoResult {
    Pending,
    NotMatch,
    Match { memo: Memo, next_position: usize },
}

pub type ParseResult = Result<MemoResult, ParseError>;

/// A rule and the position at which it is tried.
#[derive(Clone, Copy)]
pub struct MemoKey {
    pub rule: usize,
    pub position: usize,
}

/// Two results of the same shape: the same state, the same next position, nodes of the same
/// variant that are alike in every part.
pub open spec fn same_shape(a: MemoResult, b: MemoResult) -> bool {
    match (a, b) {
        (MemoResult::Pending, MemoResult::Pending) => true,
        (MemoResult::NotMatch, MemoResult::NotMatch) => true,
        (
            MemoResult::Match { memo: Memo::ASTNode(n1), next_position: p1 },
            MemoResult::Match { memo: Memo::ASTNode(n2), next_position: p2 },
        ) => p1 == p2 && node_variant(n1) == node_variant(n2) && same_node(n2, n1),
        _ => false,
    }
}

impl MemoResult {
    fn from_node(node: ASTNode, next_position: usize) -> (r: Self)
        ensures
            r == (MemoResult::Match { memo: Memo::ASTNode(node), next_position }),
    {
        MemoResult::Match { memo: Memo::ASTNode(node), next_position }
    }

    /// The node of a match.
    fn get_node(self) -> (r: Option<ASTNode>)
        ensures
            match self {
                MemoResult::Match { memo: Memo::ASTNode(n), .. } => r == Some(n),
                _ => r is None,
            },
    {
        match self {
            MemoResult::Match { memo: Memo::ASTNode(node), .. } => Some(node),
            _ => None,
        }
    }

    fn duplicate(&self) -> (r: Self)
        ensures
            same_shape(r, *self),
    {
        match self {
            MemoResult::Pending => MemoResult::Pending,
            MemoResult::NotMatch => MemoResult::NotMatch,
            MemoResult::Match { memo: Memo::ASTNode(node), next_position } => MemoResult::Match {
                memo: Memo::ASTNode(node.deep_clone()),
                next_position: *next_position,
            },
        }
    }
}

/// The memo slot of a rule at a position.
pub open spec fn slot(position: int, rule: int) -> int {
    position * 64 + rule
}

pub open spec fn memo_at(memo: Seq<Option<MemoResult>>, position: int, rule: int) -> Option<MemoResult> {
    memo[slot(position, rule)]
}

/// How far a position stands into the tokens: a read past the last token moves it back as far.
/// Only an unclosed `(` at the end reads past the last token, and it read one token before, so
/// no step of the parser lowers this.
pub open spec fn reach(n: nat, p: int) -> int {
    if p <= n {
        p
    } else {
        2 * n - p
    }
}

/// The kind of the token at `p`, if there is one.
pub open spec fn kind_at(toks: Seq<MusubuToken>, p: int) -> Option<MusubuTokenKind> {
    if 0 <= p < toks.len() {
        Some(toks[p].token_kind)
    } else {
        None
    }
}

/// The token that a match of the rule starts with, for the rules that start with a given
/// token.
pub open spec fn opens_rule(rule: usize, toks: Seq<MusubuToken>, p: int) -> bool {
    let k = kind_at(toks, p);
    if rule == RULE_ITEM || rule == RULE_VIS_ITEM {
        k == Some(MusubuTokenKind::Keyword(MusubuKeyword::Fn)) || k == Some(
            MusubuTokenKind::Keyword(MusubuKeyword::Struct),
        ) || k == Some(MusubuTokenKind::Keyword(MusubuKeyword::Enum))
    } else if rule == RULE_STRUCT {
        k == Some(MusubuTokenKind::Keyword(MusubuKeyword::Struct))
    } else if rule == RULE_FUNCTION {
        k == Some(MusubuTokenKind::Keyword(MusubuKeyword::Fn))
    } else if rule == RULE_STRUCT_STRUCT {
        k == Some(MusubuTokenKind::Keyword(MusubuKeyword::Struct))
    } else if rule == RULE_ENUMERATION {
        k == Some(MusubuTokenKind::Keyword(MusubuKeyword::Enum))
    } else if rule == RULE_BLOCK_EXPRESSION || rule == RULE_ENUM_ITEM_STRUCT {
        k == Some(MusubuTokenKind::Operator(MusubuOperator::LeftBrace))
    } else if rule == RULE_IF_EXPRESSION {
        k == Some(MusubuTokenKind::Keyword(MusubuKeyword::If))
    } else if rule == RULE_LET_STATEMENT {
        k == Some(MusubuTokenKind::Keyword(MusubuKeyword::Let))
    } else if rule == RULE_INFINITE_LOOP_EXPRESSION {
        k == Some(MusubuTokenKind::Keyword(MusubuKeyword::Loop))
    } else if rule == RULE_PREDICATE_LOOP_EXPRESSION {
        k == Some(MusubuTokenKind::Keyword(MusubuKeyword::While))
    } else if rule == RULE_ITERATOR_LOOP_EXPRESSION {
        k == Some(MusubuTokenKind::Keyword(MusubuKeyword::For))
    } else if rule == RULE_CONTINUE_EXPRESSION {
        k == Some(MusubuTokenKind::Keyword(MusubuKeyword::Continue))
    } else if rule == RULE_BREAK_EXPRESSION {
        k == Some(MusubuTokenKind::Keyword(MusubuKeyword::Break))
    } else if rule == RULE_RETURN_EXPRESSION {
        k == Some(MusubuTokenKind::Keyword(MusubuKeyword::Return))
    } else if rule == RULE_PATH_IDENT_SEGMENT || rule == RULE_SIMPLE_PATH_SEGMENT || rule
        == RULE_STRUCT_FIELD || rule == RULE_ENUM_ITEM {
        k matches Some(MusubuTokenKind::Identifier(_))
    } else if rule == RULE_TYPE_PATH_FN {
        k == Some(MusubuTokenKind::Operator(MusubuOperator::LeftParenthesis))
    } else if rule == RULE_FUNCTION_RETURN_TYPE {
        k == Some(MusubuTokenKind::Operator(MusubuOperator::RightArrow))
    } else if rule == RULE_GENERIC_ARGS {
        k == Some(MusubuTokenKind::Operator(MusubuOperator::Comparison(ComparisonOperator::LessThan)))
    } else if rule == RULE_SEMICOLON {
        k == Some(MusubuTokenKind::Operator(MusubuOperator::Semicolon))
    } else if rule == RULE_LITERAL_EXPRESSION || rule == RULE_LITERAL_PATTERN {
        k matches Some(MusubuTokenKind::Literal(_)) || k == Some(MusubuTokenKind::Keyword(MusubuKeyword::True))
            || k == Some(MusubuTokenKind::Keyword(MusubuKeyword::False))
    } else {
        true
    }
}

/// How a match of the rule from `p` to `next` ends: with `}` (an item, also with the `;` of a
/// function declaration), with `;`, with `>`, or after exactly one token.
pub open spec fn closes_rule(rule: usize, toks: Seq<MusubuToken>, p: int, next: int) -> bool {
    let k = kind_at(toks, next - 1);
    if rule == RULE_ITEM || rule == RULE_VIS_ITEM || rule == RULE_FUNCTION {
        k == Some(MusubuTokenKind::Operator(MusubuOperator::RightBrace)) || k == Some(
            MusubuTokenKind::Operator(MusubuOperator::Semicolon),
        )
    } else if rule == RULE_STRUCT
        || rule == RULE_STRUCT_STRUCT || rule == RULE_ENUMERATION || rule == RULE_ENUM_ITEM_STRUCT
        || rule == RULE_BLOCK_EXPRESSION || rule == RULE_IF_EXPRESSION || rule
        == RULE_EXPRESSION_WITH_BLOCK || rule == RULE_LOOP_EXPRESSION || rule
        == RULE_INFINITE_LOOP_EXPRESSION || rule == RULE_PREDICATE_LOOP_EXPRESSION || rule
        == RULE_ITERATOR_LOOP_EXPRESSION {
        k == Some(MusubuTokenKind::Operator(MusubuOperator::RightBrace))
    } else if rule == RULE_LET_STATEMENT || rule == RULE_SEMICOLON {
        k == Some(MusubuTokenKind::Operator(MusubuOperator::Semicolon))
    } else if rule == RULE_GENERIC_ARGS {
        k == Some(MusubuTokenKind::Operator(MusubuOperator::Comparison(ComparisonOperator::GreaterThan)))
    } else if rule == RULE_PATH_IDENT_SEGMENT || rule == RULE_SIMPLE_PATH_SEGMENT || rule
        == RULE_LITERAL_EXPRESSION || rule == RULE_LITERAL_PATTERN || rule == RULE_CONTINUE_EXPRESSION
        || rule == RULE_BREAK_EXPRESSION {
        next == p + 1
    } else {
        true
    }
}

/// The identifier token at `p` has the characters `name`.
pub open spec fn identifier_at(toks: Seq<MusubuToken>, p: int, name: Seq<char>) -> bool {
    kind_at(toks, p) matches Some(MusubuTokenKind::Identifier(s)) && s@ == name
}

/// An identifier pattern read from `p`: an optional `ref`, an optional `mut`, then the name.
pub open spec fn identifier_pattern_at(pt: Pattern, toks: Seq<MusubuToken>, p: int) -> bool {
    match pt {
        Pattern::Identifier { ident, reference, mutable } => {
            let after_ref = p + if reference { 1int } else { 0int };
            &&& reference == (kind_at(toks, p) == Some(MusubuTokenKind::Keyword(MusubuKeyword::Ref)))
            &&& mutable == (kind_at(toks, after_ref) == Some(MusubuTokenKind::Keyword(MusubuKeyword::Mut)))
            &&& identifier_at(toks, after_ref + if mutable { 1int } else { 0int }, ident@)
        },
        _ => false,
    }
}

/// An item named by the identifier after its keyword at `p`.
pub open spec fn named_item(n: ASTNode, toks: Seq<MusubuToken>, p: int) -> bool {
    n matches ASTNode::Item { item, .. } && match item.node {
        Item::Function { name, .. } => identifier_at(toks, p + 1, name@),
        Item::Struct { name, .. } => identifier_at(toks, p + 1, name@),
        Item::Enumeration { name, .. } => identifier_at(toks, p + 1, name@),
        Item::Union { .. } => false,
    }
}

/// The name of an item.
pub open spec fn item_name(n: ASTNode) -> Seq<char> {
    match n {
        ASTNode::Item { item, .. } => match item.node {
            Item::Function { name, .. } => name@,
            Item::Struct { name, .. } => name@,
            Item::Enumeration { name, .. } => name@,
            Item::Union { name, .. } => name@,
        },
        _ => Seq::empty(),
    }
}

/// What a match of the rule from `p` to `next` built, beyond its kind: a function, a struct and
/// an enumeration, and any item, are named by the identifier after their keyword, and a function has no body
/// exactly when it ends with `;`; a field and a path segment are named by their first token;
/// an identifier pattern holds its name and its `ref` and `mut`; a `let` gives a `let`
/// statement; a function type path gives a function type; generic arguments are kept as an
/// empty list.
pub open spec fn rule_node(rule: usize, n: ASTNode, toks: Seq<MusubuToken>, p: int, next: int) -> bool {
    if rule == RULE_GENERIC_ARGS {
        n matches ASTNode::Arguments(v) && v@.len() == 0
    } else if rule == RULE_FUNCTION {
        match n {
            ASTNode::Item { item, .. } => match item.node {
                Item::Function { name, body, .. } => {
                    &&& identifier_at(toks, p + 1, name@)
                    &&& (body is None <==> kind_at(toks, next - 1) == Some(
                        MusubuTokenKind::Operator(MusubuOperator::Semicolon),
                    ))
                },
                _ => false,
            },
            _ => false,
        }
    } else if rule == RULE_ITEM || rule == RULE_VIS_ITEM || rule == RULE_STRUCT {
        named_item(n, toks, p)
    } else if rule == RULE_STRUCT_STRUCT {
        n matches ASTNode::Item { item, .. } && item.node matches Item::Struct { name, .. } && identifier_at(toks, p + 1, name@)
    } else if rule == RULE_ENUMERATION {
        n matches ASTNode::Item { item, .. } && item.node matches Item::Enumeration { name, .. } && identifier_at(
            toks,
            p + 1,
            name@,
        )
    } else if rule == RULE_STRUCT_FIELD {
        n matches ASTNode::StructField(f) && identifier_at(toks, p, f.node.name@)
    } else if rule == RULE_LET_STATEMENT {
        n matches ASTNode::Statement(st) && st.node is Let
    } else if rule == RULE_PATH_IDENT_SEGMENT || rule == RULE_SIMPLE_PATH_SEGMENT {
        n matches ASTNode::Segment(seg) && identifier_at(toks, p, seg.node@)
    } else if rule == RULE_IDENTIFIER_PATTERN {
        n matches ASTNode::Pattern(pt) && identifier_pattern_at(pt.node, toks, p)
    } else if rule == RULE_TYPE_PATH_FN {
        n matches ASTNode::Type(t) && t.node is Function
    } else if rule == RULE_LITERAL_EXPRESSION {
        n matches ASTNode::Expression(e) && *e.node is Literal
    } else if rule == RULE_PATH_EXPRESSION {
        n matches ASTNode::Expression(e) && *e.node is Path
    } else if rule == RULE_BLOCK_EXPRESSION {
        n matches ASTNode::Expression(e) && *e.node is Block
    } else if rule == RULE_IF_EXPRESSION {
        n matches ASTNode::Expression(e) && *e.node is If
    } else if rule == RULE_CONTINUE_EXPRESSION {
        n matches ASTNode::Expression(e) && *e.node is Continue
    } else if rule == RULE_BREAK_EXPRESSION {
        n matches ASTNode::Expression(e) && *e.node is Break
    } else if rule == RULE_RETURN_EXPRESSION {
        n matches ASTNode::Expression(e) && *e.node is Return
    } else if rule == RULE_INFINITE_LOOP_EXPRESSION || rule == RULE_PREDICATE_LOOP_EXPRESSION || rule
        == RULE_ITERATOR_LOOP_EXPRESSION {
        n matches ASTNode::Loop(l) && (if rule == RULE_INFINITE_LOOP_EXPRESSION {
            l.node is Loop
        } else if rule == RULE_PREDICATE_LOOP_EXPRESSION {
            l.node is While
        } else {
            l.node is For
        })
    } else {
        true
    }
}

/// A recorded match of a rule at `position` ends no earlier and no lower in reach, holds a node
/// of the rule, and starts and ends as the rule does.
pub open spec fn entry_ok(e: Option<MemoResult>, position: int, rule: int, toks: Seq<MusubuToken>) -> bool {
    let n = toks.len();
    match e {
        Some(MemoResult::Match { memo: Memo::ASTNode(node), next_position }) => position
            <= next_position <= 2 * n && reach(n, next_position as int) >= reach(n, position)
            && rule_kind(rule as usize, node) && opens_rule(rule as usize, toks, position)
            && closes_rule(rule as usize, toks, position, next_position as int)
            && rule_node(rule as usize, node, toks, position, next_position as int),
        _ => true,
    }
}

/// How many slots of the memo table hold nothing yet.
pub open spec fn count_absent(s: Seq<Option<MemoResult>>) -> nat
    decreases s.len(),
{
    if s.len() == 0 {
        0
    } else {
        count_absent(s.drop_last()) + if s.last() is None {
            1nat
        } else {
            0nat
        }
    }
}

proof fn lemma_count_absent_update(s: Seq<Option<MemoResult>>, i: int, e: MemoResult)
    requires
        0 <= i < s.len(),
    ensures
        count_absent(s.update(i, Some(e))) + (if s[i] is None {
            1nat
        } else {
            0nat
        }) == count_absent(s),
    decreases s.len(),
{
    let t = s.update(i, Some(e));
    if i == s.len() - 1 {
        assert(t.drop_last() =~= s.drop_last());
    } else {
        lemma_count_absent_update(s.drop_last(), i, e);
        assert(t.drop_last() =~= s.drop_last().update(i, Some(e)));
    }
}

proof fn lemma_slot(n: int, p: int, r: int)
    requires
        0 <= p <= 2 * n,
        0 <= r < 64,
    ensures
        0 <= slot(p, r) < (2 * n + 1) * 64,
{
}

proof fn lemma_slot_distinct(p1: int, r1: int, p2: int, r2: int)
    requires
        0 <= r1 < 64,
        0 <= r2 < 64,
        p1 != p2 || r1 != r2,
    ensures
        slot(p1, r1) != slot(p2, r2),
{
    if p1 < p2 {
        assert(slot(p1, r1) < slot(p2, r2));
    } else if p2 < p1 {
        assert(slot(p2, r2) < slot(p1, r1));
    }
}

/// A packrat parser over the token stream, with a Pratt parser for operators.
pub struct PackratAndPrattParser {
    memo: Vec<Option<MemoResult>>,
    tokens: TokenStream,
    exponent_values: Vec<Result<String, ParseError>>,
    max_read_position: usize,
    last_fail_rule: Option<usize>,
    bp_stack: Vec<u16>,
}

impl PackratAndPrattParser {
    /// The number of tokens.
    pub closed spec fn token_count(&self) -> nat {
        self.tokens.spec_tokens().len()
    }

    pub closed spec fn spec_tokens(&self) -> Seq<super::token::MusubuToken> {
        self.tokens.spec_tokens()
    }

    pub closed spec fn spec_exponent_values(&self) -> Seq<Result<String, ParseError>> {
        self.exponent_values@
    }

    /// The index of the token read next.
    pub closed spec fn pos(&self) -> int {
        self.tokens.spec_index() as int
    }

    /// The memo slot of `rule` at the current position.
    pub closed spec fn memo_entry(&self, rule: usize) -> Option<MemoResult> {
        memo_at(self.memo@, self.pos(), rule as int)
    }

    /// What the memo table holds for `rule` at `position`.
    pub closed spec fn recorded_at(&self, position: int, rule: usize) -> Option<MemoResult> {
        memo_at(self.memo@, position, rule as int)
    }

    /// The memo table.
    pub closed spec fn spec_memo(&self) -> Seq<Option<MemoResult>> {
        self.memo@
    }

    /// The tokens `struct NAME { }` stand at the position, and the rules of the fields that
    /// would start at `}` have no final answer recorded there.
    pub open spec fn struct_body_ready(s: Self) -> bool {
        let p = s.pos();
        &&& empty_struct_at(s.spec_tokens(), p)
        &&& unsettled(s.recorded_at(p + 3, RULE_STRUCT_FIELDS))
        &&& unsettled(s.recorded_at(p + 3, RULE_STRUCT_FIELD))
    }

    /// `struct_body_ready`, and no final answer recorded at the position for the rules from
    /// `Item` down to `StructStruct`.
    pub open spec fn empty_struct_ready(s: Self) -> bool {
        &&& Self::struct_body_ready(s)
        &&& unsettled(s.memo_entry(RULE_ITEM))
        &&& unsettled(s.memo_entry(RULE_VIS_ITEM))
        &&& unsettled(s.memo_entry(RULE_VISIBILITY))
        &&& unsettled(s.memo_entry(RULE_FUNCTION))
        &&& unsettled(s.memo_entry(RULE_STRUCT))
        &&& unsettled(s.memo_entry(RULE_STRUCT_STRUCT))
    }

    /// Only the slot of `rule` at `position` may differ between the two tables.
    pub open spec fn memo_changed_at(old: Self, new: Self, position: int, rule: usize) -> bool {
        new.spec_memo() == old.spec_memo().update(slot(position, rule as int), new.recorded_at(position, rule))
    }

    /// The token at the position is `)`.
    pub open spec fn close_paren_here(s: Self) -> bool {
        kind_at(s.spec_tokens(), s.pos()) == Some(MusubuTokenKind::Operator(MusubuOperator::RightParenthesis))
    }

    /// No rule of the group of `g` has a final answer recorded at the position.
    pub open spec fn group_free(s: Self, g: usize) -> bool {
        Self::group_free_at(s, s.pos(), g)
    }

    /// No rule of the group of `g` has a final answer recorded at `q`.
    pub closed spec fn group_free_at(s: Self, q: int, g: usize) -> bool {
        forall|r: usize| r < 64 && param_group(g, r) ==> unsettled(#[trigger] memo_at(s.memo@, q, r as int))
    }

    /// `declaration_ready`, and no final answer recorded at the position for the rules from
    /// `Item` down to `Visibility`.
    pub open spec fn declaration_item_ready(s: Self) -> bool {
        &&& Self::declaration_ready(s)
        &&& unsettled(s.recorded_at(s.pos(), RULE_ITEM))
        &&& unsettled(s.recorded_at(s.pos(), RULE_VIS_ITEM))
        &&& unsettled(s.recorded_at(s.pos(), RULE_VISIBILITY))
    }

    /// The tokens `fn NAME ( ) ;` stand at the position, and none of the rules that read them
    /// has a final answer recorded where it would read.
    pub open spec fn declaration_ready(s: Self) -> bool {
        let toks = s.spec_tokens();
        let p = s.pos();
        &&& kind_at(toks, p) == Some(MusubuTokenKind::Keyword(MusubuKeyword::Fn))
        &&& kind_at(toks, p + 1) matches Some(MusubuTokenKind::Identifier(_))
        &&& kind_at(toks, p + 2) == Some(MusubuTokenKind::Operator(MusubuOperator::LeftParenthesis))
        &&& kind_at(toks, p + 3) == Some(MusubuTokenKind::Operator(MusubuOperator::RightParenthesis))
        &&& kind_at(toks, p + 4) == Some(MusubuTokenKind::Operator(MusubuOperator::Semicolon))
        &&& unsettled(s.recorded_at(p, RULE_FUNCTION))
        &&& Self::group_free_at(s, p + 3, RULE_FUNCTION_PARAMETERS)
        &&& unsettled(s.recorded_at(p + 4, RULE_FUNCTION_RETURN_TYPE))
    }

    /// Only the slots of the rules of the group of `g` at `q` may differ between the tables.
    pub closed spec fn same_except(a: Self, b: Self, q: int, g: usize) -> bool {
        forall|p: int, r: int|
            0 <= p <= 2 * a.token_count() && 0 <= r < 64 && !(p == q && param_group(g, r as usize)) ==> #[trigger] memo_at(
                b.memo@,
                p,
                r,
            ) == memo_at(a.memo@, p, r)
    }

    /// Only the slot of `rule` at `q` may differ between the tables.
    pub closed spec fn only_slot(a: Self, b: Self, q: int, rule: usize) -> bool {
        forall|p: int, r: int|
            0 <= p <= 2 * a.token_count() && 0 <= r < 64 && !(p == q && r == rule) ==> #[trigger] memo_at(b.memo@, p, r)
                == memo_at(a.memo@, p, r)
    }

    proof fn lemma_only_slot(a: Self, b: Self, q: int, rule: usize)
        requires
            a.wf(),
            0 <= q <= 2 * a.token_count(),
            rule < 64,
            b.memo@ == a.memo@.update(slot(q, rule as int), b.memo@[slot(q, rule as int)]),
        ensures
            Self::only_slot(a, b, q, rule),
    {
        let n = a.token_count() as int;
        assert forall|p: int, r: int|
            0 <= p <= 2 * a.token_count() && 0 <= r < 64 && !(p == q && r == rule) implies #[trigger] memo_at(b.memo@, p, r)
            == memo_at(a.memo@, p, r) by {
            lemma_slot(n, p, r);
            lemma_slot(n, q, rule as int);
            lemma_slot_distinct(p, r, q, rule as int);
        }
    }

    /// Entering a rule of a group that tries `child` next: the child's group is still free, and
    /// what the child changes stays within the rule's group.
    proof fn lemma_enter_group(a: Self, b: Self, c: Self, g: usize, child: usize)
        requires
            b.token_count() == a.token_count(),
            b.pos() == a.pos(),
            Self::only_slot(a, b, a.pos(), g),
            Self::group_free(a, g),
            param_group(g, g),
            !param_group(child, g),
            forall|r: usize| #[trigger] param_group(child, r) ==> param_group(g, r),
            a.wf(),
        ensures
            Self::group_free(b, child),
            Self::same_except(b, c, a.pos(), child) ==> Self::same_except(a, c, a.pos(), g),
    {
        assert forall|r: usize| r < 64 && param_group(child, r) implies unsettled(
            #[trigger] memo_at(b.memo@, b.pos(), r as int),
        ) by {
            assert(param_group(g, r));
            assert(memo_at(b.memo@, a.pos(), r as int) == memo_at(a.memo@, a.pos(), r as int));
        }
    }

    /// Trying a second child of a rule of a group after a first one that failed: the second
    /// child's group is still free, and what it changes stays within the rule's group.
    proof fn lemma_enter_next(a: Self, b1: Self, b: Self, c: Self, g: usize, prev: usize, child: usize)
        requires
            b1.token_count() == a.token_count(),
            b.token_count() == a.token_count(),
            b1.pos() == a.pos(),
            b.pos() == a.pos(),
            Self::only_slot(a, b1, a.pos(), g),
            Self::same_except(b1, b, a.pos(), prev),
            Self::group_free(a, g),
            param_group(g, g),
            !param_group(child, g),
            forall|r: usize| #[trigger] param_group(child, r) ==> param_group(g, r) && !param_group(prev, r),
            forall|r: usize| #[trigger] param_group(prev, r) ==> param_group(g, r),
            a.wf(),
        ensures
            Self::group_free(b, child),
            Self::same_except(b, c, a.pos(), child) ==> Self::same_except(a, c, a.pos(), g),
    {
        assert forall|r: usize| r < 64 && param_group(child, r) implies unsettled(
            #[trigger] memo_at(b.memo@, b.pos(), r as int),
        ) by {
            assert(param_group(g, r) && !param_group(prev, r));
            assert(memo_at(b.memo@, a.pos(), r as int) == memo_at(b1.memo@, a.pos(), r as int));
            assert(memo_at(b1.memo@, a.pos(), r as int) == memo_at(a.memo@, a.pos(), r as int));
        }
    }

    /// A rule that changed only its own slot at its position leaves a group free three tokens on.
    proof fn lemma_free_elsewhere(a: Self, b: Self, c: Self, rule: usize, g: usize)
        requires
            a.wf(),
            a.pos() + 4 < a.token_count(),
            Self::only_slot(a, b, a.pos(), rule),
            c.memo == b.memo,
            c.pos() == a.pos() + 3,
            Self::group_free_at(a, a.pos() + 3, g),
        ensures
            Self::group_free(c, g),
    {
        assert forall|r: usize| r < 64 && param_group(g, r) implies unsettled(
            #[trigger] memo_at(c.memo@, c.pos(), r as int),
        ) by {
            assert(memo_at(b.memo@, a.pos() + 3, r as int) == memo_at(a.memo@, a.pos() + 3, r as int));
        }
    }

    /// After a function's own slot and its parameter rules three tokens on changed, the
    /// return type's slot four tokens on is as it was.
    proof fn lemma_other_position(a: Self, b: Self, c: Self, d: Self, rule: usize)
        requires
            a.wf(),
            a.pos() + 4 < a.token_count(),
            b.token_count() == a.token_count(),
            c.token_count() == a.token_count(),
            Self::only_slot(a, b, a.pos(), rule),
            c.memo == b.memo,
            c.pos() == a.pos() + 3,
            Self::same_except(c, d, a.pos() + 3, RULE_FUNCTION_PARAMETERS),
        ensures
            d.recorded_at(a.pos() + 4, RULE_FUNCTION_RETURN_TYPE) == a.recorded_at(a.pos() + 4, RULE_FUNCTION_RETURN_TYPE),
    {
        assert(memo_at(d.memo@, a.pos() + 4, RULE_FUNCTION_RETURN_TYPE as int) == memo_at(
            c.memo@,
            a.pos() + 4,
            RULE_FUNCTION_RETURN_TYPE as int,
        ));
        assert(memo_at(b.memo@, a.pos() + 4, RULE_FUNCTION_RETURN_TYPE as int) == memo_at(
            a.memo@,
            a.pos() + 4,
            RULE_FUNCTION_RETURN_TYPE as int,
        ));
    }

    /// A step that changed one slot of another rule at the position keeps a declaration ready.
    proof fn lemma_declaration_kept(a: Self, b: Self, rule: usize)
        requires
            a.wf(),
            Self::declaration_item_ready(a),
            Self::only_slot(a, b, a.pos(), rule),
            rule < 64,
            rule != RULE_FUNCTION,
            b.pos() == a.pos(),
            b.spec_tokens() == a.spec_tokens(),
        ensures
            Self::declaration_ready(b),
            rule != RULE_ITEM ==> unsettled(b.recorded_at(b.pos(), RULE_ITEM)),
            rule != RULE_VIS_ITEM ==> unsettled(b.recorded_at(b.pos(), RULE_VIS_ITEM)),
            rule != RULE_VISIBILITY ==> unsettled(b.recorded_at(b.pos(), RULE_VISIBILITY)),
    {
        let p = a.pos();
        assert(memo_at(b.memo@, p, RULE_FUNCTION as int) == memo_at(a.memo@, p, RULE_FUNCTION as int));
        assert(memo_at(b.memo@, p + 4, RULE_FUNCTION_RETURN_TYPE as int) == memo_at(
            a.memo@,
            p + 4,
            RULE_FUNCTION_RETURN_TYPE as int,
        ));
        assert(memo_at(b.memo@, p, RULE_ITEM as int) == memo_at(a.memo@, p, RULE_ITEM as int) || rule == RULE_ITEM);
        assert(memo_at(b.memo@, p, RULE_VIS_ITEM as int) == memo_at(a.memo@, p, RULE_VIS_ITEM as int) || rule
            == RULE_VIS_ITEM);
        assert(memo_at(b.memo@, p, RULE_VISIBILITY as int) == memo_at(a.memo@, p, RULE_VISIBILITY as int) || rule
            == RULE_VISIBILITY);
        assert forall|r: usize| r < 64 && param_group(RULE_FUNCTION_PARAMETERS, r) implies unsettled(
            #[trigger] memo_at(b.memo@, p + 3, r as int),
        ) by {
            assert(memo_at(b.memo@, p + 3, r as int) == memo_at(a.memo@, p + 3, r as int));
        }
    }

    /// Only the slots of two rules at `q` may differ between the tables.
    pub closed spec fn two_slots(a: Self, b: Self, q: int, r1: usize, r2: usize) -> bool {
        forall|p: int, r: int|
            0 <= p <= 2 * a.token_count() && 0 <= r < 64 && !(p == q && (r == r1 || r == r2)) ==> #[trigger] memo_at(
                b.memo@,
                p,
                r,
            ) == memo_at(a.memo@, p, r)
    }

    proof fn lemma_only_slot_join(a: Self, b: Self, c: Self, r1: usize, r2: usize)
        requires
            b.token_count() == a.token_count(),
            Self::only_slot(a, b, a.pos(), r1),
            Self::only_slot(b, c, a.pos(), r2),
        ensures
            Self::two_slots(a, c, a.pos(), r1, r2),
    {
    }

    /// Two steps that changed slots of other rules at the position keep a declaration ready.
    proof fn lemma_declaration_kept2(a: Self, c: Self, r1: usize, r2: usize)
        requires
            a.wf(),
            Self::declaration_ready(a),
            Self::two_slots(a, c, a.pos(), r1, r2),
            r1 != RULE_FUNCTION,
            r2 != RULE_FUNCTION,
            c.pos() == a.pos(),
            c.spec_tokens() == a.spec_tokens(),
        ensures
            Self::declaration_ready(c),
    {
        let p = a.pos();
        assert(memo_at(c.memo@, p, RULE_FUNCTION as int) == memo_at(a.memo@, p, RULE_FUNCTION as int));
        assert(memo_at(c.memo@, p + 4, RULE_FUNCTION_RETURN_TYPE as int) == memo_at(
            a.memo@,
            p + 4,
            RULE_FUNCTION_RETURN_TYPE as int,
        ));
        assert forall|r: usize| r < 64 && param_group(RULE_FUNCTION_PARAMETERS, r) implies unsettled(
            #[trigger] memo_at(c.memo@, p + 3, r as int),
        ) by {
            assert(memo_at(c.memo@, p + 3, r as int) == memo_at(a.memo@, p + 3, r as int));
        }
    }

    /// Leaving a rule of a group after recording its own answer.
    proof fn lemma_leave_group(a: Self, c: Self, d: Self, g: usize)
        requires
            c.token_count() == a.token_count(),
            Self::same_except(a, c, a.pos(), g),
            Self::only_slot(c, d, a.pos(), g),
            param_group(g, g),
        ensures
            Self::same_except(a, d, a.pos(), g),
    {
    }

    /// Every slot of the memo table is empty.
    pub closed spec fn memo_cleared(&self) -> bool {
        forall|i: int| 0 <= i < self.memo@.len() ==> self.memo@[i] is None
    }

    /// The answer of a rule that never matches: with nothing final recorded here, it fails with
    /// `NotMatch` and records that; with a failure recorded, it gives that again; either way it
    /// stays where it is.
    pub open spec fn never_matches(rule: usize, old: Self, new: Self, res: ParseResult) -> bool {
        &&& new.pos() == old.pos()
        &&& match old.memo_entry(rule) {
            Some(MemoResult::Pending) | None => {
                &&& res == Err::<MemoResult, ParseError>(ParseError::NotMatch)
                &&& new.recorded_at(old.pos(), rule) == Some(MemoResult::NotMatch)
            },
            Some(_) => res == Ok::<MemoResult, ParseError>(MemoResult::NotMatch),
        }
    }

    /// A lone literal stands at the position: a literal token whose exponent value was computed,
    /// or `true` or `false`; no operator that continues an expression follows it; and the
    /// expression rules have no final answer recorded here.
    pub open spec fn lone_literal(s: Self) -> bool {
        let toks = s.spec_tokens();
        let p = s.pos();
        &&& ((kind_at(toks, p) matches Some(MusubuTokenKind::Literal(_)) && s.spec_exponent_values()[p] is Ok)
            || kind_at(toks, p) == Some(MusubuTokenKind::Keyword(MusubuKeyword::True)) || kind_at(toks, p)
            == Some(MusubuTokenKind::Keyword(MusubuKeyword::False)))
        &&& !continues_expression(kind_at(toks, p + 1))
        &&& unsettled(s.memo_entry(RULE_EXPRESSION))
        &&& unsettled(s.memo_entry(RULE_EXPRESSION_WITHOUT_BLOCK))
        &&& unsettled(s.memo_entry(RULE_LITERAL_EXPRESSION))
    }

    /// How many more reads the position has room for.
    pub closed spec fn rem(&self) -> nat {
        (2 * self.token_count() - self.pos()) as nat
    }

    /// The slots of the memo table that hold nothing yet.
    pub closed spec fn absent(&self) -> nat {
        count_absent(self.memo@)
    }

    /// The memo table has a slot for each rule at each position of non-negative reach, and
    /// each recorded match keeps `entry_ok`; the position and the furthest position read have
    /// non-negative reach; there is an exponent value for each token.
    pub closed spec fn wf(&self) -> bool {
        let n = self.token_count();
        &&& self.memo@.len() == (2 * n + 1) * 64
        &&& self.memo@.len() <= usize::MAX
        &&& self.tokens.spec_index() <= 2 * n
        &&& self.max_read_position <= 2 * n
        &&& self.exponent_values@.len() == n
        &&& forall|p: int, r: int|
            0 <= p <= 2 * n && 0 <= r < 64 ==> entry_ok(#[trigger] memo_at(self.memo@, p, r), p, r, self.tokens.spec_tokens())
    }

    /// What every step of the parser keeps: the tokens, the exponent values, a well-formed
    /// table that only fills up.
    pub open spec fn frame(old: Self, new: Self) -> bool {
        &&& new.wf()
        &&& new.spec_tokens() == old.spec_tokens()
        &&& new.spec_exponent_values() == old.spec_exponent_values()
        &&& new.absent() <= old.absent()
    }

    /// A step that moves the position neither back nor lower in reach.
    pub open spec fn advanced(old: Self, new: Self) -> bool {
        &&& Self::frame(old, new)
        &&& new.pos() >= old.pos()
        &&& reach(new.token_count(), new.pos()) >= reach(old.token_count(), old.pos())
    }

    /// A rule whose answer at the position is recorded gives that answer again: a match of the
    /// same shape, moving to its end, or a failure, staying.
    pub open spec fn replays(rule: usize, old: Self, new: Self, res: ParseResult) -> bool {
        rule < RULE_COUNT ==> match old.memo_entry(rule) {
            Some(MemoResult::Pending) => true,
            Some(e) => {
                &&& res matches Ok(m) && same_shape(m, e)
                &&& new.pos() == match e {
                    MemoResult::Match { next_position, .. } => next_position as int,
                    _ => old.pos(),
                }
            },
            None => true,
        }
    }

    /// What each rule ensures: an advancing step, an answer of the rule, and a recorded answer
    /// given again.
    pub open spec fn rule_done(rule: usize, old: Self, new: Self, res: ParseResult) -> bool {
        &&& Self::advanced(old, new)
        &&& Self::rule_result(rule, res, old.pos(), new)
        &&& Self::replays(rule, old, new, res)
    }

    /// A rule's answer: never `Pending`; a match holds a node of the rule and ends where the
    /// parser now stands.
    pub open spec fn rule_result(rule: usize, res: ParseResult, start: int, s: Self) -> bool {
        match res {
            Ok(MemoResult::Pending) => false,
            Ok(MemoResult::Match { memo: Memo::ASTNode(n), next_position }) => {
                &&& rule_kind(rule, n)
                &&& next_position == s.pos()
                &&& opens_rule(rule, s.spec_tokens(), start)
                &&& closes_rule(rule, s.spec_tokens(), start, next_position as int)
                &&& rule_node(rule, n, s.spec_tokens(), start, next_position as int)
            },
            _ => true,
        }
    }

    pub closed spec fn spec_max_read_position(&self) -> usize {
        self.max_read_position
    }

    pub closed spec fn spec_last_fail_rule(&self) -> Option<usize> {
        self.last_fail_rule
    }

    /// The furthest position that a match reached.
    pub fn max_read_position(&self) -> (p: usize)
        ensures
            p == self.spec_max_read_position(),
    {
        self.max_read_position
    }

    /// The last rule that was tried past the furthest position reached.
    pub fn last_fail_rule(&self) -> (r: Option<usize>)
        ensures
            r == self.spec_last_fail_rule(),
    {
        self.last_fail_rule
    }

    pub closed spec fn spec_current_token(&self) -> Option<MusubuToken> {
        self.tokens.spec_current()
    }

    /// The token at the current position, if there is one.
    pub fn current_token(&self) -> (t: Option<&MusubuToken>)
        ensures
            t == (match self.spec_current_token() {
                Some(token) => Some(&token),
                None => None::<&MusubuToken>,
            }),
    {
        self.tokens.get()
    }

    fn make_key(&self, rule: usize) -> (key: MemoKey)
        ensures
            key.rule == rule,
            key.position == self.pos(),
    {
        MemoKey { rule, position: self.tokens.get_position() }
    }

    /// Writes an entry into the slot of `key`.
    fn store(&mut self, key: MemoKey, entry: MemoResult)
        requires
            old(self).wf(),
            key.rule < RULE_COUNT,
            key.position <= 2 * old(self).token_count(),
            entry_ok(Some(entry), key.position as int, key.rule as int, old(self).spec_tokens()),
        ensures
            Self::frame(*old(self), *final(self)),
            final(self).pos() == old(self).pos(),
            memo_at(final(self).memo@, key.position as int, key.rule as int) == Some(entry),
            memo_at(old(self).memo@, key.position as int, key.rule as int) is None
                ==> final(self).absent() < old(self).absent(),
            final(self).memo@ == old(self).memo@.update(slot(key.position as int, key.rule as int), Some(entry)),
            final(self).exponent_values == old(self).exponent_values,
            final(self).bp_stack == old(self).bp_stack,
    {
        let ghost n = self.token_count();
        let ghost toks = self.spec_tokens();
        let ghost s = self.memo@;
        proof {
            lemma_slot(n as int, key.position as int, key.rule as int);
        }
        let idx = key.position * 64 + key.rule;
        self.memo.set(idx, Some(entry));
        proof {
            lemma_count_absent_update(s, idx as int, entry);
            assert forall|p: int, r: int| 0 <= p <= 2 * n && 0 <= r < 64 implies entry_ok(
                #[trigger] memo_at(self.memo@, p, r),
                p,
                r,
                toks,
            ) by {
                if p != key.position || r != key.rule {
                    lemma_slot_distinct(p, r, key.position as int, key.rule as int);
                    lemma_slot(n as int, p, r);
                    assert(memo_at(self.memo@, p, r) == memo_at(s, p, r));
                }
            }
        }
    }

    /// The recorded state of `key`, moving to the end of a recorded match; with nothing
    /// recorded, marks the rule as being parsed here.
    fn get_memo_uncheck(&mut self, key: &MemoKey) -> (res: Option<MemoResult>)
        requires
            old(self).wf(),
            key.position == old(self).pos(),
            key.rule < RULE_COUNT,
        ensures
            Self::frame(*old(self), *final(self)),
            match old(self).memo_entry(key.rule) {
                None => {
                    &&& res is None
                    &&& final(self).pos() == old(self).pos()
                    &&& final(self).absent() < old(self).absent()
                    &&& final(self).memo_entry(key.rule) == Some(MemoResult::Pending)
                    &&& final(self).memo@ == old(self).memo@.update(
                        slot(key.position as int, key.rule as int),
                        Some(MemoResult::Pending),
                    )
                },
                Some(e) => {
                    &&& res matches Some(m) && same_shape(m, e)
                    &&& final(self).memo@ == old(self).memo@
                    &&& final(self).absent() == old(self).absent()
                    &&& final(self).pos() == match e {
                        MemoResult::Match { next_position, .. } => next_position as int,
                        _ => old(self).pos(),
                    }
                },
            },
    {
        let ghost n = self.token_count();
        proof {
            lemma_slot(n as int, key.position as int, key.rule as int);
        }
        let idx = key.position * 64 + key.rule;
        let found = match &self.memo[idx] {
            Some(memo) => Some(memo.duplicate()),
            None => None,
        };
        if let Some(memo) = found {
            if let MemoResult::Match { next_position, .. } = &memo {
                self.tokens.set_position(*next_position);
            }
            return Some(memo);
        }
        if self.max_read_position < self.tokens.get_position() {
            self.last_fail_rule = Some(key.rule);
        }
        self.store(*key, MemoResult::Pending);
        None
    }

    /// The recorded answer of `key`; nothing while the rule is being parsed here, which lets a
    /// rule be entered again at the same position.
    fn get_memo(&mut self, key: &MemoKey) -> (res: Option<MemoResult>)
        requires
            old(self).wf(),
            key.position == old(self).pos(),
            key.rule < RULE_COUNT,
        ensures
            Self::frame(*old(self), *final(self)),
            match res {
                Some(m) => {
                    &&& Self::rule_result(key.rule, Ok(m), key.position as int, *final(self))
                    &&& Self::advanced(*old(self), *final(self))
                    &&& Self::replays(key.rule, *old(self), *final(self), Ok(m))
                    &&& final(self).memo@ == old(self).memo@
                    &&& !unsettled(old(self).recorded_at(key.position as int, key.rule))
                    &&& old(self).memo_entry(key.rule) is Some
                    &&& old(self).memo_entry(key.rule) != Some(MemoResult::Pending)
                },
                None => {
                    &&& final(self).pos() == old(self).pos()
                    &&& (old(self).memo_entry(key.rule) is None || old(self).memo_entry(key.rule)
                        == Some(MemoResult::Pending))
                    &&& final(self).memo@ == old(self).memo@.update(
                        slot(key.position as int, key.rule as int),
                        Some(MemoResult::Pending),
                    )
                    &&& (final(self).absent() < old(self).absent() || (old(self).memo_entry(key.rule)
                        == Some(MemoResult::Pending) && final(self).absent() == old(self).absent()))
                    &&& Self::only_slot(*old(self), *final(self), key.position as int, key.rule)
                },
            },
    {
        let ghost n = self.token_count();
        let ghost s0 = *self;
        proof {
            lemma_slot(n as int, key.position as int, key.rule as int);
        }
        let memo = self.get_memo_uncheck(key);
        proof {
            if memo is None || memo == Some(MemoResult::Pending) {
                assert(self.memo@ =~= s0.memo@.update(
                    slot(key.position as int, key.rule as int),
                    self.memo@[slot(key.position as int, key.rule as int)],
                ));
                Self::lemma_only_slot(s0, *self, key.position as int, key.rule);
            }
        }
        match memo {
            Some(MemoResult::Pending) => None,
            Some(m) => {
                proof {
                    let e = old(self).memo_entry(key.rule);
                    assert(entry_ok(memo_at(old(self).memo@, key.position as int, key.rule as int), key.position as int, key.rule as int, old(self).spec_tokens()));
                }
                Some(m)
            },
            None => None,
        }
    }

    /// The span from the token at the key's position to the current token: each end is the
    /// token's byte position, and an end past the last token is 0 for the start and the start
    /// for the end.
    fn make_span(&self, key: &MemoKey) -> (span: Span)
        ensures
            span.file_id == 0,
            span.start == if key.position < self.token_count() {
                self.spec_tokens()[key.position as int].position as u32
            } else {
                0u32
            },
            span.end == if 0 <= self.pos() < self.token_count() {
                self.spec_tokens()[self.pos()].position as u32
            } else {
                span.start
            },
    {
        let start = match self.tokens.get_from_index(key.position) {
            Some(token) => token.position,
            None => 0,
        };
        let end = match self.tokens.get() {
            Some(token) => token.position,
            None => start,
        };
        Span { file_id: 0, start: start as u32, end: end as u32 }
    }

    /// Records the answer of `key` and hands it back: a match as it is, a failure as `NotMatch`
    /// after moving back to where the rule started.
    fn make_memo_from_result(&mut self, key: MemoKey, result: ParseResult) -> (res: ParseResult)
        requires
            old(self).wf(),
            key.rule < RULE_COUNT,
            key.position <= old(self).pos(),
            reach(old(self).token_count(), old(self).pos()) >= reach(old(self).token_count(), key.position as int),
            Self::rule_result(key.rule, result, key.position as int, *old(self)),
        ensures
            Self::frame(*old(self), *final(self)),
            res == result,
            result is Err ==> final(self).recorded_at(key.position as int, key.rule) == Some(
                MemoResult::NotMatch,
            ),
            Self::memo_changed_at(*old(self), *final(self), key.position as int, key.rule),
            Self::only_slot(*old(self), *final(self), key.position as int, key.rule),
            final(self).pos() == if result is Ok {
                old(self).pos()
            } else {
                key.position as int
            },
            Self::rule_result(key.rule, res, key.position as int, *final(self)),
    {
        let memo = match &result {
            Ok(memo) => {
                let pos = self.tokens.get_position();
                if self.max_read_position < pos {
                    self.max_read_position = pos;
                }
                memo.duplicate()
            },
            Err(_) => {
                self.tokens.set_position(key.position);
                MemoResult::NotMatch
            },
        };
        let ghost before = *self;
        proof {
            lemma_slot(self.token_count() as int, key.position as int, key.rule as int);
        }
        self.store(key, memo);
        proof {
            Self::lemma_only_slot(before, *self, key.position as int, key.rule);
            Self::lemma_only_slot(*old(self), *self, key.position as int, key.rule);
        }
        result
    }

    /// Records a match of `key` that ends here, with `node`.
    fn make_memo_from_node(&mut self, key: MemoKey, node: ASTNode) -> (res: ParseResult)
        requires
            old(self).wf(),
            key.rule < RULE_COUNT,
            key.position <= old(self).pos(),
            reach(old(self).token_count(), old(self).pos()) >= reach(old(self).token_count(), key.position as int),
            rule_kind(key.rule, node),
            opens_rule(key.rule, old(self).spec_tokens(), key.position as int),
            closes_rule(key.rule, old(self).spec_tokens(), key.position as int, old(self).pos()),
            rule_node(key.rule, node, old(self).spec_tokens(), key.position as int, old(self).pos()),
        ensures
            Self::frame(*old(self), *final(self)),
            final(self).pos() == old(self).pos(),
            res == Ok::<MemoResult, ParseError>(
                MemoResult::Match { memo: Memo::ASTNode(node), next_position: old(self).pos() as usize },
            ),
            Self::rule_result(key.rule, res, key.position as int, *final(self)),
    {
        let pos = self.tokens.get_position();
        self.make_memo_from_result(key, Ok(MemoResult::from_node(node, pos)))
    }
}

} // verus!

verus! {

fn expect_expression(node: ASTNode) -> (r: SpannedBox<Expression>)
    requires
        node_variant(node) == 1,
    ensures
        node == ASTNode::Expression(r),
{
    match node {
        ASTNode::Expression(e) => e,
        _ => vstd::pervasive::unreached(),
    }
}

fn expect_type(node: ASTNode) -> (r: Spanned<TypeKind>)
    requires
        node_variant(node) == 2,
    ensures
        node == ASTNode::Type(r),
{
    match node {
        ASTNode::Type(t) => t,
        _ => vstd::pervasive::unreached(),
    }
}

fn expect_loop(node: ASTNode) -> (r: Spanned<LoopExpr>)
    requires
        node_variant(node) == 4,
    ensures
        node == ASTNode::Loop(r),
{
    match node {
        ASTNode::Loop(l) => l,
        _ => vstd::pervasive::unreached(),
    }
}

fn expect_statement(node: ASTNode) -> (r: Spanned<Statement>)
    requires
        node_variant(node) == 6,
    ensures
        node == ASTNode::Statement(r),
{
    match node {
        ASTNode::Statement(s) => s,
        _ => vstd::pervasive::unreached(),
    }
}

fn expect_statements(node: ASTNode) -> (r: SpannedVec<Statement>)
    requires
        node_variant(node) == 7,
    ensures
        node == ASTNode::Statements(r),
{
    match node {
        ASTNode::Statements(s) => s,
        _ => vstd::pervasive::unreached(),
    }
}

fn expect_pattern(node: ASTNode) -> (r: Spanned<Pattern>)
    requires
        node_variant(node) == 8,
    ensures
        node == ASTNode::Pattern(r),
{
    match node {
        ASTNode::Pattern(p) => p,
        _ => vstd::pervasive::unreached(),
    }
}

fn expect_struct_fields(node: ASTNode) -> (r: SpannedVec<StructField>)
    requires
        node_variant(node) == 10,
    ensures
        node == ASTNode::StructFields(r),
{
    match node {
        ASTNode::StructFields(f) => f,
        _ => vstd::pervasive::unreached(),
    }
}

fn expect_enum_items(node: ASTNode) -> (r: SpannedVec<EnumItem>)
    requires
        node_variant(node) == 12,
    ensures
        node == ASTNode::EnumItems(r),
{
    match node {
        ASTNode::EnumItems(i) => i,
        _ => vstd::pervasive::unreached(),
    }
}

fn expect_call_params(node: ASTNode) -> (r: Vec<SpannedBox<Expression>>)
    requires
        node_variant(node) == 14,
    ensures
        node == ASTNode::CallParams(r),
{
    match node {
        ASTNode::CallParams(p) => p,
        _ => vstd::pervasive::unreached(),
    }
}

fn expect_function_parameter(node: ASTNode) -> (r: Spanned<FunctionParam>)
    requires
        node_variant(node) == 15,
    ensures
        node == ASTNode::FunctionParameter(r),
{
    match node {
        ASTNode::FunctionParameter(p) => p,
        _ => vstd::pervasive::unreached(),
    }
}

fn expect_function_parameters(node: ASTNode) -> (r: SpannedVec<FunctionParam>)
    requires
        node_variant(node) == 16,
    ensures
        node == ASTNode::FunctionParameters(r),
{
    match node {
        ASTNode::FunctionParameters(p) => p,
        _ => vstd::pervasive::unreached(),
    }
}

fn expect_path_segment(node: ASTNode) -> (r: Spanned<PathSegment>)
    requires
        node_variant(node) == 17,
    ensures
        node == ASTNode::PathSegment(r),
{
    match node {
        ASTNode::PathSegment(p) => p,
        _ => vstd::pervasive::unreached(),
    }
}

fn expect_path(node: ASTNode) -> (r: Spanned<Path>)
    requires
        node_variant(node) == 19,
    ensures
        node == ASTNode::Path(r),
{
    match node {
        ASTNode::Path(p) => p,
        _ => vstd::pervasive::unreached(),
    }
}

fn expect_segment(node: ASTNode) -> (r: Spanned<String>)
    requires
        node_variant(node) == 20,
    ensures
        node == ASTNode::Segment(r),
{
    match node {
        ASTNode::Segment(s) => s,
        _ => vstd::pervasive::unreached(),
    }
}

fn expect_arguments(node: ASTNode) -> (r: SpannedVec<TypeKind>)
    requires
        node_variant(node) == 21,
    ensures
        node == ASTNode::Arguments(r),
{
    match node {
        ASTNode::Arguments(a) => a,
        _ => vstd::pervasive::unreached(),
    }
}

/// Whether the current operator is the closing bracket `pair`.
fn is_closing(current: Option<&MusubuOperator>, pair: &MusubuOperator) -> (r: bool)
    requires
        *pair is RightParenthesis || *pair is RightBrackets || *pair is RightBrace,
    ensures
        r == (current == Some(pair)),
{
    match (current, pair) {
        (Some(MusubuOperator::RightParenthesis), MusubuOperator::RightParenthesis) => true,
        (Some(MusubuOperator::RightBrackets), MusubuOperator::RightBrackets) => true,
        (Some(MusubuOperator::RightBrace), MusubuOperator::RightBrace) => true,
        _ => false,
    }
}

/// The node of a matched result; a failure as it is, another answer as an unexpected node.
fn node_of(result: ParseResult) -> (r: Result<ASTNode, ParseError>)
    ensures
        match result {
            Ok(MemoResult::Match { memo: Memo::ASTNode(n), .. }) => r == Ok::<ASTNode, ParseError>(n),
            Ok(_) => r == Err::<ASTNode, ParseError>(ParseError::UnexpectedAST),
            Err(e) => r == Err::<ASTNode, ParseError>(e),
        },
{
    match result {
        Ok(MemoResult::Match { memo: Memo::ASTNode(n), .. }) => Ok(n),
        Ok(_) => Err(ParseError::UnexpectedAST),
        Err(e) => Err(e),
    }
}

/// The expression of a matched result of an expression rule; anything else does not match.
fn expr_of(result: ParseResult) -> (r: Result<SpannedBox<Expression>, ParseError>)
    requires
        result matches Ok(MemoResult::Match { memo: Memo::ASTNode(n), .. }) ==> node_variant(n) == 1,
    ensures
        match result {
            Ok(MemoResult::Match { memo: Memo::ASTNode(n), .. }) => r matches Ok(e) && n == ASTNode::Expression(e),
            _ => r == Err::<SpannedBox<Expression>, ParseError>(ParseError::NotMatch),
        },
{
    match result {
        Ok(MemoResult::Match { memo: Memo::ASTNode(n), .. }) => Ok(expect_expression(n)),
        _ => Err(ParseError::NotMatch),
    }
}

fn make_binary_op_ast(
    span: Span,
    operator: &BinaryOperator,
    left: SpannedBox<Expression>,
    right: SpannedBox<Expression>,
) -> (r: Result<ASTNode, ParseError>)
    ensures
        r == Ok::<ASTNode, ParseError>(
            ASTNode::Expression(Spanned { node: Box::new(Expression::Binary { operator: *operator, left, right }), span }),
        ),
{
    Ok(Expression::Binary { operator: *operator, left, right }.make_node(span))
}

fn make_assign_op_ast(
    span: Span,
    operator: &AssignOperator,
    left: SpannedBox<Expression>,
    right: SpannedBox<Expression>,
) -> (r: Result<ASTNode, ParseError>)
    ensures
        r == Ok::<ASTNode, ParseError>(
            ASTNode::Expression(Spanned { node: Box::new(Expression::Assign { operator: *operator, left, right }), span }),
        ),
{
    Ok(Expression::Assign { operator: *operator, left, right }.make_node(span))
}

fn make_comparison_op_ast(
    span: Span,
    operator: &ComparisonOperator,
    left: SpannedBox<Expression>,
    right: SpannedBox<Expression>,
) -> (r: Result<ASTNode, ParseError>)
    ensures
        r == Ok::<ASTNode, ParseError>(
            ASTNode::Expression(
                Spanned { node: Box::new(Expression::Comparison { operator: *operator, left, right }), span },
            ),
        ),
{
    Ok(Expression::Comparison { operator: *operator, left, right }.make_node(span))
}

fn make_logical_op_ast(
    span: Span,
    operator: &LogicalOperator,
    left: SpannedBox<Expression>,
    right: SpannedBox<Expression>,
) -> (r: Result<ASTNode, ParseError>)
    ensures
        r == Ok::<ASTNode, ParseError>(
            ASTNode::Expression(Spanned { node: Box::new(Expression::Logical { operator: *operator, left, right }), span }),
        ),
{
    Ok(Expression::Logical { operator: *operator, left, right }.make_node(span))
}

/// The node of an infix operation: the operator with its left and right operands, in that
/// order.
pub open spec fn infix_node(op: MusubuOperator, span: Span, lhs: ASTNode, rhs: ASTNode) -> ASTNode {
    let left = lhs->Expression_0;
    let right = rhs->Expression_0;
    ASTNode::Expression(
        Spanned {
            node: Box::new(
                match op {
                    MusubuOperator::Binary(b) => Expression::Binary { operator: b, left, right },
                    MusubuOperator::Assign(a) => Expression::Assign { operator: a, left, right },
                    MusubuOperator::Comparison(c) => Expression::Comparison { operator: c, left, right },
                    MusubuOperator::Logical(l) => Expression::Logical { operator: l, left, right },
                    _ => Expression::Continue { label: None },
                },
            ),
            span,
        },
    )
}

/// A call: the function before `(` and the parameters inside.
fn make_brackets_ast(span: Span, lhs: Option<ASTNode>, mhs: Option<ASTNode>, rhs: Option<ASTNode>) -> (r: Result<
    ASTNode,
    ParseError,
>)
    requires
        lhs matches Some(l) && node_variant(l) == 1,
        mhs is None,
        rhs matches Some(r) && node_variant(r) == 14,
    ensures
        r matches Ok(n) && n == (ASTNode::Expression(Spanned {
            node: Box::new(Expression::Call {
                function: expect_spec_expression(lhs->0),
                arguments: expect_spec_call_params(rhs->0),
            }),
            span,
        })),
{
    let function = expect_expression(lhs.unwrap());
    let arguments = expect_call_params(rhs.unwrap());
    Ok(Expression::Call { function, arguments }.make_node(span))
}

pub open spec fn expect_spec_expression(n: ASTNode) -> SpannedBox<Expression> {
    match n {
        ASTNode::Expression(e) => e,
        _ => arbitrary(),
    }
}

pub open spec fn expect_spec_call_params(n: ASTNode) -> Vec<SpannedBox<Expression>> {
    match n {
        ASTNode::CallParams(p) => p,
        _ => arbitrary(),
    }
}

/// The expression that an operator makes of its operands: a call for `(`, a binary,
/// assignment, comparison or logical expression for those operators; no other operator makes
/// one.
fn make_ast_from_operator(
    span: Span,
    op: &MusubuOperator,
    lhs: Option<ASTNode>,
    mhs: Option<ASTNode>,
    rhs: Option<ASTNode>,
) -> (r: Result<ASTNode, ParseError>)
    requires
        lhs matches Some(l) && node_variant(l) == 1,
        mhs is None,
        rhs matches Some(r) && node_variant(r) == (if *op is LeftParenthesis {
            14int
        } else {
            1int
        }),
    ensures
        r matches Ok(n) ==> node_variant(n) == 1,
        r is Err <==> !(*op is LeftParenthesis || *op is Binary || *op is Assign || *op is Comparison
            || *op is Logical),
        r is Err ==> r == Err::<ASTNode, ParseError>(ParseError::NotMatch),
        !(*op is LeftParenthesis) && r is Ok ==> r == Ok::<ASTNode, ParseError>(
            infix_node(*op, span, lhs->Some_0, rhs->Some_0),
        ),
{
    if let MusubuOperator::LeftParenthesis = op {
        return make_brackets_ast(span, lhs, mhs, rhs);
    }
    let lhs = expect_expression(lhs.unwrap());
    let rhs = expect_expression(rhs.unwrap());
    match op {
        MusubuOperator::Binary(op) => make_binary_op_ast(span, op, lhs, rhs),
        MusubuOperator::Assign(op) => make_assign_op_ast(span, op, lhs, rhs),
        MusubuOperator::Comparison(op) => make_comparison_op_ast(span, op, lhs, rhs),
        MusubuOperator::Logical(op) => make_logical_op_ast(span, op, lhs, rhs),
        _ => Err(ParseError::NotMatch),
    }
}

} // verus!

verus! {

impl PackratAndPrattParser {
    /// A parser at the start of `tokens`, with the value of each token's exponent literal
    /// (computed in floating point by the caller) at the token's index.
    pub fn new(tokens: TokenStream, exponent_values: Vec<Result<String, ParseError>>) -> (p: Self)
        requires
            tokens.spec_index() <= 2 * tokens.spec_tokens().len(),
            exponent_values@.len() == tokens.spec_tokens().len(),
            (2 * tokens.spec_tokens().len() + 1) * 64 <= usize::MAX,
        ensures
            p.wf(),
            p.spec_tokens() == tokens.spec_tokens(),
            p.spec_exponent_values() == exponent_values@,
            p.pos() == tokens.spec_index(),
    {
        let n = exponent_values.len();
        let size = (2 * n + 1) * 64;
        let mut memo: Vec<Option<MemoResult>> = Vec::new();
        let mut i: usize = 0;
        while i < size
            invariant
                i <= size,
                memo@.len() == i,
                forall|j: int| 0 <= j < i ==> memo@[j] is None,
            decreases size - i,
        {
            memo.push(None);
            i = i + 1;
        }
        let p = Self { memo, tokens, exponent_values, max_read_position: 0, last_fail_rule: None, bp_stack: vec![0] };
        proof {
            assert forall|q: int, r: int| 0 <= q <= 2 * n && 0 <= r < 64 implies entry_ok(
                #[trigger] memo_at(p.memo@, q, r),
                q,
                r,
                p.spec_tokens(),
            ) by {
                lemma_slot(n as int, q, r);
            }
        }
        p
    }

    /// Forgets every recorded answer.
    fn clear_memo(&mut self)
        requires
            old(self).wf(),
        ensures
            final(self).wf(),
            final(self).spec_tokens() == old(self).spec_tokens(),
            final(self).spec_exponent_values() == old(self).spec_exponent_values(),
            final(self).pos() == old(self).pos(),
            final(self).memo_cleared(),
            final(self).memo@.len() == old(self).memo@.len(),
            final(self).spec_max_read_position() == old(self).spec_max_read_position(),
            final(self).spec_last_fail_rule() == old(self).spec_last_fail_rule(),
            final(self).bp_stack == old(self).bp_stack,
    {
        let ghost n = self.token_count();
        let ghost toks = self.spec_tokens();
        let ghost m0 = self.memo@;
        let len = self.memo.len();
        let mut i: usize = 0;
        while i < len
            invariant
                i <= len,
                len == self.memo@.len(),
                self.memo@.len() == m0.len(),
                forall|j: int| 0 <= j < m0.len() ==> (self.memo@[j] is None || self.memo@[j] == m0[j]),
                forall|p: int, r: int|
                    0 <= p <= 2 * n && 0 <= r < 64 ==> entry_ok(#[trigger] memo_at(m0, p, r), p, r, toks),
                self.token_count() == n,
                old(self).wf(),
                self.tokens == old(self).tokens,
                self.exponent_values == old(self).exponent_values,
                self.max_read_position == old(self).max_read_position,
                self.last_fail_rule == old(self).last_fail_rule,
                self.bp_stack == old(self).bp_stack,
                forall|j: int| 0 <= j < i ==> self.memo@[j] is None,
            decreases len - i,
        {
            self.memo.set(i, None);
            i = i + 1;
        }
        proof {
            assert forall|p: int, r: int| 0 <= p <= 2 * n && 0 <= r < 64 implies entry_ok(
                #[trigger] memo_at(self.memo@, p, r),
                p,
                r,
                toks,
            ) by {
                lemma_slot(n as int, p, r);
                assert(entry_ok(memo_at(m0, p, r), p, r, toks));
            }
        }
    }

    /// Parses one item at the start of the tokens, forgetting earlier answers; then stands at
    /// the furthest position that a match reached.
    pub fn parse(&mut self) -> (res: Result<ASTNode, ParseError>)
        requires
            old(self).wf(),
        ensures
            final(self).wf(),
            final(self).spec_tokens() == old(self).spec_tokens(),
            final(self).pos() == final(self).spec_max_read_position(),
            res matches Ok(n) ==> node_variant(n) == 0 && opens_rule(RULE_ITEM, old(self).spec_tokens(), old(self).pos())
                && named_item(n, old(self).spec_tokens(), old(self).pos()),
            empty_struct_at(old(self).spec_tokens(), old(self).pos()) ==> res is Ok,
            declaration_at(old(self).spec_tokens(), old(self).pos()) ==> (res matches Ok(n) && declaration_node(n)),
    {
        self.clear_memo();
        proof {
            let n = self.token_count() as int;
            let p = self.pos();
            if declaration_at(self.spec_tokens(), p) {
                lemma_slot(n, p, RULE_ITEM as int);
                lemma_slot(n, p, RULE_VIS_ITEM as int);
                lemma_slot(n, p, RULE_VISIBILITY as int);
                lemma_slot(n, p, RULE_FUNCTION as int);
                lemma_slot(n, p + 4, RULE_FUNCTION_RETURN_TYPE as int);
                assert forall|r: usize| r < 64 && param_group(RULE_FUNCTION_PARAMETERS, r) implies unsettled(
                    #[trigger] memo_at(self.memo@, p + 3, r as int),
                ) by {
                    lemma_slot(n, p + 3, r as int);
                }
                assert(Self::declaration_item_ready(*self));
            }
        }
        proof {
            let n = self.token_count() as int;
            let p = self.pos();
            if empty_struct_at(self.spec_tokens(), p) {
                lemma_slot(n, p, RULE_ITEM as int);
                lemma_slot(n, p, RULE_VIS_ITEM as int);
                lemma_slot(n, p, RULE_VISIBILITY as int);
                lemma_slot(n, p, RULE_FUNCTION as int);
                lemma_slot(n, p, RULE_STRUCT as int);
                lemma_slot(n, p, RULE_STRUCT_STRUCT as int);
                lemma_slot(n, p + 3, RULE_STRUCT_FIELDS as int);
                lemma_slot(n, p + 3, RULE_STRUCT_FIELD as int);
                assert(Self::empty_struct_ready(*self));
            }
        }
        let item = match self.parse_item() {
            Ok(memo) => match memo.get_node() {
                Some(node) => Ok(node),
                None => Err(ParseError::UnexpectedAST),
            },
            Err(e) => Err(e),
        };
        let pos = self.max_read_position;
        self.tokens.set_position(pos);
        item
    }

    /// The value of the exponent literal at token `index`.
    fn exponent_value(&self, index: usize) -> (r: Result<String, ParseError>)
        requires
            index < self.exponent_values@.len(),
        ensures
            match self.exponent_values@[index as int] {
                Ok(s) => r == Ok::<String, ParseError>(s),
                Err(e) => r matches Err(e2) && match e {
                    ParseError::FloatErr(_) => e2 is FloatErr,
                    ParseError::IntErr(_) => e2 is IntErr,
                    _ => e2 == e,
                },
            },
    {
        match &self.exponent_values[index] {
            Ok(s) => Ok(s.clone()),
            Err(e) => Err(e.duplicate()),
        }
    }

    // Item ::= VisItem
    fn parse_item(&mut self) -> (res: ParseResult)
        requires
            old(self).wf(),
        ensures
            Self::rule_done(RULE_ITEM, *old(self), *final(self), res),
            Self::empty_struct_ready(*old(self)) ==> (res matches Ok(MemoResult::Match { .. })) && final(self).pos()
                == old(self).pos() + 4,
            Self::declaration_item_ready(*old(self)) ==> (res matches Ok(MemoResult::Match { .. })) && final(self).pos()
                == old(self).pos() + 5,
            Self::declaration_item_ready(*old(self)) ==> (res matches Ok(MemoResult::Match { memo: Memo::ASTNode(n), .. })
                && declaration_node(n)),
        decreases old(self).rem(), old(self).absent(), 4nat,
    {
        let ghost s0 = *self;
        let key = self.make_key(RULE_ITEM);
        if let Some(memo) = self.get_memo(&key) {
            return Ok(memo);
        }
        proof {
            if Self::declaration_item_ready(s0) {
                Self::lemma_declaration_kept(s0, *self, RULE_ITEM);
            }
        }
        let node = match self.parse_visitem() {
            Ok(memo) => memo.get_node(),
            Err(_) => None,
        };
        let Some(node) = node else {
            return self.make_memo_from_result(key, Err(ParseError::NotMatch));
        };
        self.make_memo_from_node(key, node)
    }

    // VisItem ::= Visibility? ( Function | Struct | Enumeration )
    fn parse_visitem(&mut self) -> (res: ParseResult)
        requires
            old(self).wf(),
        ensures
            Self::rule_done(RULE_VIS_ITEM, *old(self), *final(self), res),
            Self::empty_struct_ready(*old(self)) ==> (res matches Ok(MemoResult::Match { .. })) && final(self).pos()
                == old(self).pos() + 4,
            Self::declaration_item_ready(*old(self)) ==> (res matches Ok(MemoResult::Match { .. })) && final(self).pos()
                == old(self).pos() + 5,
            Self::declaration_item_ready(*old(self)) ==> (res matches Ok(MemoResult::Match { memo: Memo::ASTNode(n), .. })
                && declaration_node(n)),
        decreases old(self).rem(), old(self).absent(), 3nat,
    {
        let ghost s0 = *self;
        let ghost decl = Self::declaration_item_ready(s0);
        let key = self.make_key(RULE_VIS_ITEM);
        if let Some(memo) = self.get_memo(&key) {
            return Ok(memo);
        }
        let ghost s1 = *self;
        proof {
            if decl {
                Self::lemma_declaration_kept(s0, s1, RULE_VIS_ITEM);
            }
        }
        let position = self.tokens.get_position();
        if self.parse_visibility().is_err() {
            self.tokens.set_position(position);
        }
        let start = self.tokens.get_position();
        proof {
            if decl {
                lemma_slot(s1.token_count() as int, s1.pos(), RULE_VISIBILITY as int);
                assert(self.memo@ =~= s1.memo@.update(
                    slot(s1.pos(), RULE_VISIBILITY as int),
                    self.memo@[slot(s1.pos(), RULE_VISIBILITY as int)],
                ));
                Self::lemma_only_slot(s1, *self, s1.pos(), RULE_VISIBILITY);
                Self::lemma_only_slot_join(s0, s1, *self, RULE_VIS_ITEM, RULE_VISIBILITY);
                Self::lemma_declaration_kept2(s0, *self, RULE_VIS_ITEM, RULE_VISIBILITY);
            }
        }
        let result = match self.parse_function() {
            Ok(m) => Ok(m),
            Err(_) => {
                self.tokens.set_position(start);
                match self.parse_struct() {
                    Ok(m) => Ok(m),
                    Err(_) => {
                        self.tokens.set_position(start);
                        match self.parse_enumeration() {
                            Ok(m) => Ok(m),
                            Err(_) => {
                                self.tokens.set_position(start);
                                Err(ParseError::NotMatch)
                            },
                        }
                    },
                }
            },
        };
        self.make_memo_from_result(key, result)
    }

    fn parse_visibility(&mut self) -> (res: ParseResult)
        requires
            old(self).wf(),
        ensures
            Self::rule_done(RULE_VISIBILITY, *old(self), *final(self), res),
            Self::never_matches(RULE_VISIBILITY, *old(self), *final(self), res),
            Self::memo_changed_at(*old(self), *final(self), old(self).pos(), RULE_VISIBILITY),
            final(self).pos() == old(self).pos(),
        decreases old(self).rem(), old(self).absent(), 1nat,
    {
        let ghost start = *self;
        proof {
            lemma_slot(self.token_count() as int, self.pos(), RULE_VISIBILITY as int);
        }
        let key = self.make_key(RULE_VISIBILITY);
        if let Some(memo) = self.get_memo(&key) {
            assert(self.memo@ =~= start.memo@.update(slot(key.position as int, RULE_VISIBILITY as int), self.recorded_at(key.position as int, RULE_VISIBILITY)));
            return Ok(memo);
        }
        let res = self.make_memo_from_result(key, Err(ParseError::NotMatch));
        assert(self.memo@ =~= start.memo@.update(slot(key.position as int, RULE_VISIBILITY as int), self.recorded_at(key.position as int, RULE_VISIBILITY)));
        res
    }

    // Function ::= `fn` IDENTIFIER `(` FunctionParameters? `)` FunctionReturnType? ( BlockExpression | `;` )
    fn parse_function(&mut self) -> (res: ParseResult)
        requires
            old(self).wf(),
        ensures
            Self::rule_done(RULE_FUNCTION, *old(self), *final(self), res),
            kind_at(old(self).spec_tokens(), old(self).pos()) != Some(MusubuTokenKind::Keyword(MusubuKeyword::Fn))
                && unsettled(old(self).memo_entry(RULE_FUNCTION)) ==> res is Err && final(self).pos() == old(
                self,
            ).pos() && Self::memo_changed_at(*old(self), *final(self), old(self).pos(), RULE_FUNCTION),
            Self::declaration_ready(*old(self)) ==> (res matches Ok(MemoResult::Match { .. })) && final(self).pos()
                == old(self).pos() + 5,
            Self::declaration_ready(*old(self)) ==> (res matches Ok(MemoResult::Match { memo: Memo::ASTNode(n), .. })
                && declaration_node(n)),
        decreases old(self).rem(), old(self).absent(), 1nat,
    {
        let ghost s0 = *self;
        let ghost decl = Self::declaration_ready(s0);
        let key = self.make_key(RULE_FUNCTION);
        if let Some(memo) = self.get_memo(&key) {
            return Ok(memo);
        }
        let ghost s1 = *self;
        let keyword = match self.tokens.get_keyword() {
            Some(k) => *k,
            None => return Err(ParseError::NotMatch),
        };
        if !matches!(keyword, MusubuKeyword::Fn) {
            return Err(ParseError::NotMatch);
        }
        self.tokens.next();
        let identifier = match self.tokens.get_identifier() {
            Some(i) => String::from_str(i),
            None => return Err(ParseError::NotMatch),
        };
        self.tokens.next();
        if !matches!(self.tokens.get_operator(), Some(MusubuOperator::LeftParenthesis)) {
            return self.make_memo_from_result(key, Err(ParseError::NotMatch));
        }
        self.tokens.next();
        let position = self.tokens.get_position();
        proof {
            if decl {
                Self::lemma_free_elsewhere(s0, s1, *self, RULE_FUNCTION, RULE_FUNCTION_PARAMETERS);
            }
        }
        let ghost s2 = *self;
        let params = match self.parse_function_parameters() {
            Ok(memo) => match memo.get_node() {
                Some(node) => expect_function_parameters(node),
                None => Vec::new(),
            },
            Err(_) => {
                self.tokens.set_position(position);
                Vec::new()
            },
        };
        if !matches!(self.tokens.get_operator(), Some(MusubuOperator::RightParenthesis)) {
            return self.make_memo_from_result(key, Err(ParseError::NotMatch));
        }
        self.tokens.next();
        let position = self.tokens.get_position();
        proof {
            if decl {
                Self::lemma_other_position(s0, s1, s2, *self, RULE_FUNCTION);
            }
        }
        let return_type = match self.parse_function_return_type() {
            Ok(memo) => match memo.get_node() {
                Some(node) => Some(expect_type(node)),
                None => None,
            },
            Err(_) => {
                self.tokens.set_position(position);
                None
            },
        };
        let body = if matches!(self.tokens.get_operator(), Some(MusubuOperator::Semicolon)) {
            // a declaration without a body
            self.tokens.next();
            None
        } else {
            let block = match self.parse_block_expression() {
                Ok(b) => b,
                Err(_) => return self.make_memo_from_result(key, Err(ParseError::NotMatch)),
            };
            let Some(node) = block.get_node() else {
                // the block was recorded as failing here
                return self.make_memo_from_result(key, Err(ParseError::UnexpectedAST));
            };
            Some(expect_expression(node))
        };
        let span = self.make_span(&key);
        let item = Item::Function { name: identifier, params, return_type, body }.make_item(
            Visibility::Public,
            span,
        );
        self.make_memo_from_node(key, item)
    }

    // FunctionParameters ::= FunctionParam (`,` FunctionParam)* `,`?
    fn parse_function_parameters(&mut self) -> (res: ParseResult)
        requires
            old(self).wf(),
        ensures
            Self::rule_done(RULE_FUNCTION_PARAMETERS, *old(self), *final(self), res),
            Self::close_paren_here(*old(self)) && Self::group_free(*old(self), RULE_FUNCTION_PARAMETERS) ==> res is Err && final(self).pos()
                == old(self).pos() && Self::same_except(*old(self), *final(self), old(self).pos(), RULE_FUNCTION_PARAMETERS),
        decreases old(self).rem(), old(self).absent(), 7nat,
    {
        let key = self.make_key(RULE_FUNCTION_PARAMETERS);
        if let Some(memo) = self.get_memo(&key) {
            return Ok(memo);
        }
        let first = match node_of(self.parse_function_param()) {
            Ok(n) => n,
            Err(_) => return self.make_memo_from_result(key, Err(ParseError::UnexpectedAST)),
        };
        let mut params: SpannedVec<FunctionParam> = vec![expect_function_parameter(first)];
        let mut missing = false;
        loop
            invariant
                Self::advanced(*old(self), *self),
                key.rule == RULE_FUNCTION_PARAMETERS,
                key.position == old(self).pos(),
            decreases self.rem(),
        {
            let start = self.tokens.get_position();
            if !matches!(self.tokens.get_operator(), Some(MusubuOperator::Comma)) {
                break;
            }
            self.tokens.next();
            match self.parse_function_param() {
                Ok(memo) => match memo.get_node() {
                    Some(node) => params.push(expect_function_parameter(node)),
                    None => missing = true,
                },
                Err(_) => {
                    self.tokens.set_position(start);
                    break;
                },
            }
        }
        if missing {
            return self.make_memo_from_result(key, Err(ParseError::UnexpectedAST));
        }
        if matches!(self.tokens.get_operator(), Some(MusubuOperator::Comma)) {
            self.tokens.next();
        }
        self.make_memo_from_node(key, ASTNode::FunctionParameters(params))
    }

    // FunctionParam ::= FunctionParamPattern | Type
    fn parse_function_param(&mut self) -> (res: ParseResult)
        requires
            old(self).wf(),
        ensures
            Self::rule_done(RULE_FUNCTION_PARAM, *old(self), *final(self), res),
            Self::close_paren_here(*old(self)) && Self::group_free(*old(self), RULE_FUNCTION_PARAM) ==> res is Err && final(self).pos()
                == old(self).pos() && Self::same_except(*old(self), *final(self), old(self).pos(), RULE_FUNCTION_PARAM),
        decreases old(self).rem(), old(self).absent(), 6nat,
    {
        let ghost s0 = *self;
        let ghost paren = Self::close_paren_here(s0) && Self::group_free(s0, RULE_FUNCTION_PARAM);
        let key = self.make_key(RULE_FUNCTION_PARAM);
        if let Some(memo) = self.get_memo(&key) {
            return Ok(memo);
        }
        let ghost s1 = *self;
        proof {
            if paren {
                Self::lemma_enter_group(s0, s1, s1, RULE_FUNCTION_PARAM, RULE_FUNCTION_PARAM_PATTERN);
            }
        }
        let start = self.tokens.get_position();
        let first = self.parse_function_param_pattern();
        let ghost s2 = *self;
        proof {
            if paren {
                Self::lemma_enter_group(s0, s1, s2, RULE_FUNCTION_PARAM, RULE_FUNCTION_PARAM_PATTERN);
                Self::lemma_enter_next(s0, s1, s2, s2, RULE_FUNCTION_PARAM, RULE_FUNCTION_PARAM_PATTERN, RULE_TYPE);
            }
        }
        let result = match first {
            Ok(m) => Ok(m),
            Err(_) => {
                self.tokens.set_position(start);
                match self.parse_type() {
                    Ok(m) => Ok(m),
                    Err(_) => {
                        self.tokens.set_position(start);
                        Err(ParseError::NotMatch)
                    },
                }
            },
        };
        let ghost s3 = *self;
        let Ok(result) = result else {
            let r = self.make_memo_from_result(key, Err(ParseError::NotMatch));
            proof {
                if paren {
                    Self::lemma_enter_next(s0, s1, s2, s3, RULE_FUNCTION_PARAM, RULE_FUNCTION_PARAM_PATTERN, RULE_TYPE);
                    Self::lemma_leave_group(s0, s3, *self, RULE_FUNCTION_PARAM);
                }
            }
            return r;
        };
        let Some(node) = result.get_node() else {
            return self.make_memo_from_result(key, Err(ParseError::NotMatch));
        };
        let span = self.make_span(&key);
        let param = match node {
            ASTNode::Type(param_type) => Spanned { node: FunctionParam { pattern: None, param_type }, span },
            ASTNode::FunctionParameter(param) => param,
            _ => vstd::pervasive::unreached(),
        };
        self.make_memo_from_node(key, ASTNode::FunctionParameter(param))
    }

    // FunctionParamPattern ::= PatternNoTopAlt `:` Type
    fn parse_function_param_pattern(&mut self) -> (res: ParseResult)
        requires
            old(self).wf(),
        ensures
            Self::rule_done(RULE_FUNCTION_PARAM_PATTERN, *old(self), *final(self), res),
            Self::close_paren_here(*old(self)) && Self::group_free(*old(self), RULE_FUNCTION_PARAM_PATTERN) ==> res is Err && final(self).pos()
                == old(self).pos() && Self::same_except(*old(self), *final(self), old(self).pos(), RULE_FUNCTION_PARAM_PATTERN),
        decreases old(self).rem(), old(self).absent(), 4nat,
    {
        let key = self.make_key(RULE_FUNCTION_PARAM_PATTERN);
        if let Some(memo) = self.get_memo(&key) {
            return Ok(memo);
        }
        let Ok(result) = self.parse_pattern_no_top_alt() else {
            return self.make_memo_from_result(key, Err(ParseError::NotMatch));
        };
        let Some(node) = result.get_node() else {
            return self.make_memo_from_result(key, Err(ParseError::NotMatch));
        };
        let pattern = Some(expect_pattern(node));
        if !matches!(self.tokens.get_operator(), Some(MusubuOperator::Colon)) {
            return self.make_memo_from_result(key, Err(ParseError::NotMatch));
        }
        self.tokens.next();
        let start = self.tokens.get_position();
        let result = match self.parse_type() {
            Ok(m) => Ok(m),
            Err(_) => {
                self.tokens.set_position(start);
                Err(ParseError::NotMatch)
            },
        };
        let Ok(result) = result else {
            return self.make_memo_from_result(key, Err(ParseError::NotMatch));
        };
        let Some(node) = result.get_node() else {
            return self.make_memo_from_result(key, Err(ParseError::NotMatch));
        };
        let param_type = expect_type(node);
        let span = self.make_span(&key);
        self.make_memo_from_node(key, FunctionParam { pattern, param_type }.make_node(span))
    }

    // FunctionReturnType ::= `->` Type
    fn parse_function_return_type(&mut self) -> (res: ParseResult)
        requires
            old(self).wf(),
        ensures
            Self::rule_done(RULE_FUNCTION_RETURN_TYPE, *old(self), *final(self), res),
            !(kind_at(old(self).spec_tokens(), old(self).pos()) == Some(MusubuTokenKind::Operator(MusubuOperator::RightArrow)))
                && unsettled(old(self).memo_entry(RULE_FUNCTION_RETURN_TYPE)) ==> res is Err && final(self).pos() == old(
                self,
            ).pos() && Self::only_slot(*old(self), *final(self), old(self).pos(), RULE_FUNCTION_RETURN_TYPE),
        decreases old(self).rem(), old(self).absent(), 1nat,
    {
        let key = self.make_key(RULE_FUNCTION_RETURN_TYPE);
        if let Some(memo) = self.get_memo(&key) {
            return Ok(memo);
        }
        let symbol = match self.tokens.get_operator() {
            Some(s) => *s,
            None => return Err(ParseError::NotMatch),
        };
        if !matches!(symbol, MusubuOperator::RightArrow) {
            return Err(ParseError::NotMatch);
        }
        self.tokens.next();
        let return_type = self.parse_type();
        self.make_memo_from_result(key, return_type)
    }

    // Struct ::= StructStruct | TupleStruct
    fn parse_struct(&mut self) -> (res: ParseResult)
        requires
            old(self).wf(),
        ensures
            Self::rule_done(RULE_STRUCT, *old(self), *final(self), res),
            Self::struct_body_ready(*old(self)) && unsettled(old(self).memo_entry(RULE_STRUCT)) && unsettled(
                old(self).memo_entry(RULE_STRUCT_STRUCT),
            ) ==> (res matches Ok(MemoResult::Match { .. })) && final(self).pos() == old(self).pos() + 4,
        decreases old(self).rem(), old(self).absent(), 2nat,
    {
        let key = self.make_key(RULE_STRUCT);
        if let Some(memo) = self.get_memo(&key) {
            return Ok(memo);
        }
        let start = self.tokens.get_position();
        match self.parse_struct_struct() {
            Ok(m) => Ok(m),
            Err(_) => {
                self.tokens.set_position(start);
                match self.parse_tuple_struct() {
                    Ok(m) => Ok(m),
                    Err(_) => {
                        self.tokens.set_position(start);
                        Err(ParseError::NotMatch)
                    },
                }
            },
        }
    }

    // StructStruct ::= `struct` IDENTIFIER `{` StructFields? `}`
    fn parse_struct_struct(&mut self) -> (res: ParseResult)
        requires
            old(self).wf(),
        ensures
            Self::rule_done(RULE_STRUCT_STRUCT, *old(self), *final(self), res),
            Self::struct_body_ready(*old(self)) && unsettled(old(self).memo_entry(RULE_STRUCT_STRUCT)) ==> (res matches Ok(
                MemoResult::Match { .. },
            )) && final(self).pos() == old(self).pos() + 4,
        decreases old(self).rem(), old(self).absent(), 1nat,
    {
        let key = self.make_key(RULE_STRUCT_STRUCT);
        if let Some(memo) = self.get_memo(&key) {
            return Ok(memo);
        }
        if !matches!(self.tokens.get_keyword(), Some(MusubuKeyword::Struct)) {
            return self.make_memo_from_result(key, Err(ParseError::NotMatch));
        }
        self.tokens.next();
        let name = match self.tokens.get_identifier() {
            Some(i) => String::from_str(i),
            None => return Err(ParseError::NotMatch),
        };
        self.tokens.next();
        if !matches!(self.tokens.get_operator(), Some(MusubuOperator::LeftBrace)) {
            return self.make_memo_from_result(key, Err(ParseError::NotMatch));
        }
        self.tokens.next();
        let position = self.tokens.get_position();
        let fields = match self.parse_struct_fields() {
            Ok(memo) => match memo.get_node() {
                Some(ASTNode::StructFields(fields)) => fields,
                _ => Vec::new(),
            },
            Err(_) => {
                self.tokens.set_position(position);
                Vec::new()
            },
        };
        if !matches!(self.tokens.get_operator(), Some(MusubuOperator::RightBrace)) {
            return self.make_memo_from_result(key, Err(ParseError::NotMatch));
        }
        self.tokens.next();
        let span = self.make_span(&key);
        let item = ASTNode::Item {
            visibility: Visibility::Public,
            item: Spanned { node: Item::Struct { name, fields }, span },
        };
        self.make_memo_from_node(key, item)
    }

    // StructFields ::= StructField (`,` StructField)* `,`?
    fn parse_struct_fields(&mut self) -> (res: ParseResult)
        requires
            old(self).wf(),
        ensures
            Self::rule_done(RULE_STRUCT_FIELDS, *old(self), *final(self), res),
            !(kind_at(old(self).spec_tokens(), old(self).pos()) matches Some(MusubuTokenKind::Identifier(_)))
                && unsettled(old(self).memo_entry(RULE_STRUCT_FIELDS)) && unsettled(old(self).memo_entry(RULE_STRUCT_FIELD))
                ==> res is Err && final(self).pos() == old(self).pos(),
        decreases old(self).rem(), old(self).absent(), 2nat,
    {
        let key = self.make_key(RULE_STRUCT_FIELDS);
        if let Some(memo) = self.get_memo(&key) {
            return Ok(memo);
        }
        let first = match node_of(self.parse_struct_field()) {
            Ok(n) => n,
            Err(_) => return self.make_memo_from_result(key, Err(ParseError::NotMatch)),
        };
        let mut fields: SpannedVec<StructField> = Vec::new();
        if let ASTNode::StructField(field) = first {
            fields.push(field);
        }
        loop
            invariant
                Self::advanced(*old(self), *self),
                key.rule == RULE_STRUCT_FIELDS,
                key.position == old(self).pos(),
            decreases self.rem(),
        {
            let start = self.tokens.get_position();
            if matches!(self.tokens.get_operator(), Some(MusubuOperator::Comma)) {
                self.tokens.next();
            }
            match self.parse_struct_field() {
                Ok(memo) => {
                    if self.tokens.get_position() <= start {
                        // an element that reads no token would repeat forever: stop here
                        break;
                    }
                    if let Some(ASTNode::StructField(field)) = memo.get_node() {
                        fields.push(field);
                    }
                },
                Err(_) => {
                    self.tokens.set_position(start);
                    break;
                },
            }
        }
        if matches!(self.tokens.get_operator(), Some(MusubuOperator::Comma)) {
            self.tokens.next();
        }
        self.make_memo_from_node(key, ASTNode::StructFields(fields))
    }

    // StructField ::= IDENTIFIER `:` Type
    fn parse_struct_field(&mut self) -> (res: ParseResult)
        requires
            old(self).wf(),
        ensures
            Self::rule_done(RULE_STRUCT_FIELD, *old(self), *final(self), res),
            !(kind_at(old(self).spec_tokens(), old(self).pos()) matches Some(MusubuTokenKind::Identifier(_)))
                && unsettled(old(self).memo_entry(RULE_STRUCT_FIELD)) ==> res is Err && final(self).pos() == old(
                self,
            ).pos(),
        decreases old(self).rem(), old(self).absent(), 1nat,
    {
        let key = self.make_key(RULE_STRUCT_FIELD);
        if let Some(memo) = self.get_memo(&key) {
            return Ok(memo);
        }
        let visibility = Visibility::Public;
        let name = match self.tokens.get_identifier() {
            Some(i) => String::from_str(i),
            None => return Err(ParseError::NotMatch),
        };
        self.tokens.next();
        if !matches!(self.tokens.get_operator(), Some(MusubuOperator::Colon)) {
            return self.make_memo_from_result(key, Err(ParseError::NotMatch));
        }
        self.tokens.next();
        let field_type = match node_of(self.parse_type()) {
            Ok(ASTNode::Type(t)) => t,
            _ => return Err(ParseError::UnexpectedAST),
        };
        let span = self.make_span(&key);
        self.make_memo_from_node(key, StructField { visibility, name, field_type }.make_node(span))
    }

    // TupleStruct ::= `struct` IDENTIFIER `(` TupleFields? `)` `;`
    fn parse_tuple_struct(&mut self) -> (res: ParseResult)
        requires
            old(self).wf(),
        ensures
            Self::rule_done(RULE_TUPLE_STRUCT, *old(self), *final(self), res),
            Self::never_matches(RULE_TUPLE_STRUCT, *old(self), *final(self), res),
        decreases old(self).rem(), old(self).absent(), 1nat,
    {
        let key = self.make_key(RULE_TUPLE_STRUCT);
        if let Some(memo) = self.get_memo(&key) {
            return Ok(memo);
        }
        self.make_memo_from_result(key, Err(ParseError::NotMatch))
    }

    // TupleFields ::= TupleField (`,` TupleField)* `,`?
    #[allow(dead_code)]
    fn parse_tuple_fields(&mut self) -> (res: ParseResult)
        requires
            old(self).wf(),
        ensures
            Self::rule_done(RULE_TUPLE_FIELDS, *old(self), *final(self), res),
            Self::never_matches(RULE_TUPLE_FIELDS, *old(self), *final(self), res),
    {
        let key = self.make_key(RULE_TUPLE_FIELDS);
        if let Some(memo) = self.get_memo(&key) {
            return Ok(memo);
        }
        self.make_memo_from_result(key, Err(ParseError::NotMatch))
    }

    // TupleField ::= Visibility? Type
    #[allow(dead_code)]
    fn parse_tuple_field(&mut self) -> (res: ParseResult)
        requires
            old(self).wf(),
        ensures
            Self::rule_done(RULE_TUPLE_FIELD, *old(self), *final(self), res),
            Self::never_matches(RULE_TUPLE_FIELD, *old(self), *final(self), res),
    {
        let key = self.make_key(RULE_TUPLE_FIELD);
        if let Some(memo) = self.get_memo(&key) {
            return Ok(memo);
        }
        self.make_memo_from_result(key, Err(ParseError::NotMatch))
    }

    // Enumeration ::= `enum` IDENTIFIER `{` EnumItems? `}`
    fn parse_enumeration(&mut self) -> (res: ParseResult)
        requires
            old(self).wf(),
        ensures
            Self::rule_done(RULE_ENUMERATION, *old(self), *final(self), res),
        decreases old(self).rem(), old(self).absent(), 1nat,
    {
        let key = self.make_key(RULE_ENUMERATION);
        if let Some(memo) = self.get_memo(&key) {
            return Ok(memo);
        }
        if !matches!(self.tokens.get_keyword(), Some(MusubuKeyword::Enum)) {
            return self.make_memo_from_result(key, Err(ParseError::NotMatch));
        }
        self.tokens.next();
        let name = match self.tokens.get_identifier() {
            Some(i) => String::from_str(i),
            None => return Err(ParseError::NotMatch),
        };
        self.tokens.next();
        if !matches!(self.tokens.get_operator(), Some(MusubuOperator::LeftBrace)) {
            return self.make_memo_from_result(key, Err(ParseError::NotMatch));
        }
        self.tokens.next();
        let position = self.tokens.get_position();
        let items = match self.parse_enum_items() {
            Ok(memo) => match memo.get_node() {
                Some(node) => expect_enum_items(node),
                None => Vec::new(),
            },
            Err(_) => {
                self.tokens.set_position(position);
                Vec::new()
            },
        };
        if !matches!(self.tokens.get_operator(), Some(MusubuOperator::RightBrace)) {
            return self.make_memo_from_result(key, Err(ParseError::NotMatch));
        }
        self.tokens.next();
        let span = self.make_span(&key);
        let item = Item::Enumeration { name, items }.make_item(Visibility::Public, span);
        self.make_memo_from_node(key, item)
    }

    // EnumItems ::= EnumItem ( `,` EnumItem )*
    fn parse_enum_items(&mut self) -> (res: ParseResult)
        requires
            old(self).wf(),
        ensures
            Self::rule_done(RULE_ENUM_ITEMS, *old(self), *final(self), res),
        decreases old(self).rem(), old(self).absent(), 2nat,
    {
        let key = self.make_key(RULE_ENUM_ITEMS);
        if let Some(memo) = self.get_memo(&key) {
            return Ok(memo);
        }
        let first = match node_of(self.parse_enum_item()) {
            Ok(n) => n,
            Err(_) => return self.make_memo_from_result(key, Err(ParseError::NotMatch)),
        };
        let mut items: SpannedVec<EnumItem> = Vec::new();
        if let ASTNode::EnumItem(item) = first {
            items.push(item);
        }
        loop
            invariant
                Self::advanced(*old(self), *self),
                key.rule == RULE_ENUM_ITEMS,
                key.position == old(self).pos(),
            decreases self.rem(),
        {
            let start = self.tokens.get_position();
            if matches!(self.tokens.get_operator(), Some(MusubuOperator::Comma)) {
                self.tokens.next();
            }
            match self.parse_enum_item() {
                Ok(memo) => {
                    if self.tokens.get_position() <= start {
                        // an element that reads no token would repeat forever: stop here
                        break;
                    }
                    if let Some(ASTNode::EnumItem(item)) = memo.get_node() {
                        items.push(item);
                    }
                },
                Err(_) => {
                    self.tokens.set_position(start);
                    break;
                },
            }
        }
        self.make_memo_from_node(key, ASTNode::EnumItems(items))
    }

    // EnumItem ::= IDENTIFIER ( EnumItemTuple | EnumItemStruct )?
    fn parse_enum_item(&mut self) -> (res: ParseResult)
        requires
            old(self).wf(),
        ensures
            Self::rule_done(RULE_ENUM_ITEM, *old(self), *final(self), res),
        decreases old(self).rem(), old(self).absent(), 1nat,
    {
        let key = self.make_key(RULE_ENUM_ITEM);
        if let Some(memo) = self.get_memo(&key) {
            return Ok(memo);
        }
        let name = match self.tokens.get_identifier() {
            Some(i) => String::from_str(i),
            None => return Err(ParseError::NotMatch),
        };
        self.tokens.next();
        let position = self.tokens.get_position();
        let result = match self.parse_enum_item_tuple() {
            Ok(m) => Ok(m),
            Err(_) => {
                self.tokens.set_position(position);
                match self.parse_enum_item_struct() {
                    Ok(m) => Ok(m),
                    Err(_) => {
                        self.tokens.set_position(position);
                        Err(ParseError::NotMatch)
                    },
                }
            },
        };
        let fields = match result {
            Ok(memo) => match memo.get_node() {
                Some(node) => expect_struct_fields(node),
                None => Vec::new(),
            },
            Err(_) => {
                self.tokens.set_position(position);
                Vec::new()
            },
        };
        let span = self.make_span(&key);
        self.make_memo_from_node(
            key,
            EnumItem::StructItem { visibility: Visibility::Public, name, fields }.make_node(span),
        )
    }

    // EnumItemTuple ::= `(` TupleFields? `)`
    fn parse_enum_item_tuple(&mut self) -> (res: ParseResult)
        requires
            old(self).wf(),
        ensures
            Self::rule_done(RULE_ENUM_ITEM_TUPLE, *old(self), *final(self), res),
            Self::never_matches(RULE_ENUM_ITEM_TUPLE, *old(self), *final(self), res),
        decreases old(self).rem(), old(self).absent(), 1nat,
    {
        let key = self.make_key(RULE_ENUM_ITEM_TUPLE);
        if let Some(memo) = self.get_memo(&key) {
            return Ok(memo);
        }
        self.make_memo_from_result(key, Err(ParseError::NotMatch))
    }

    // EnumItemStruct ::= `{` StructFields? `}`
    fn parse_enum_item_struct(&mut self) -> (res: ParseResult)
        requires
            old(self).wf(),
        ensures
            Self::rule_done(RULE_ENUM_ITEM_STRUCT, *old(self), *final(self), res),
        decreases old(self).rem(), old(self).absent(), 1nat,
    {
        let key = self.make_key(RULE_ENUM_ITEM_STRUCT);
        if let Some(memo) = self.get_memo(&key) {
            return Ok(memo);
        }
        if !matches!(self.tokens.get_operator(), Some(MusubuOperator::LeftBrace)) {
            return self.make_memo_from_result(key, Err(ParseError::NotMatch));
        }
        self.tokens.next();
        let position = self.tokens.get_position();
        let fields = match self.parse_struct_fields() {
            Ok(memo) => match memo.get_node() {
                Some(ASTNode::StructFields(fields)) => fields,
                _ => Vec::new(),
            },
            Err(_) => {
                self.tokens.set_position(position);
                Vec::new()
            },
        };
        if !matches!(self.tokens.get_operator(), Some(MusubuOperator::RightBrace)) {
            return self.make_memo_from_result(key, Err(ParseError::NotMatch));
        }
        self.tokens.next();
        self.make_memo_from_node(key, ASTNode::StructFields(fields))
    }

    // EnumItemDiscriminant ::= `=` Expression
    #[allow(dead_code)]
    fn parse_enum_item_discriminant(&mut self) -> (res: ParseResult)
        requires
            old(self).wf(),
        ensures
            Self::rule_done(RULE_ENUM_ITEM_DISCRIMINANT, *old(self), *final(self), res),
            Self::never_matches(RULE_ENUM_ITEM_DISCRIMINANT, *old(self), *final(self), res),
    {
        let key = self.make_key(RULE_ENUM_ITEM_DISCRIMINANT);
        if let Some(memo) = self.get_memo(&key) {
            return Ok(memo);
        }
        self.make_memo_from_result(key, Err(ParseError::NotMatch))
    }

    // Type ::= TypeNoBounds
    fn parse_type(&mut self) -> (res: ParseResult)
        requires
            old(self).wf(),
        ensures
            Self::rule_done(RULE_TYPE, *old(self), *final(self), res),
            Self::close_paren_here(*old(self)) && Self::group_free(*old(self), RULE_TYPE) ==> res is Err && final(self).pos()
                == old(self).pos() && Self::same_except(*old(self), *final(self), old(self).pos(), RULE_TYPE),
        decreases old(self).rem(), old(self).absent(), 5nat,
    {
        let key = self.make_key(RULE_TYPE);
        if let Some(memo) = self.get_memo(&key) {
            return Ok(memo);
        }
        let Ok(kind) = node_of(self.parse_type_no_bounds()) else {
            return self.make_memo_from_result(key, Err(ParseError::NotMatch));
        };
        let t = expect_type(kind);
        self.make_memo_from_node(key, ASTNode::Type(t))
    }

    // TypeNoBounds ::= TypePath
    fn parse_type_no_bounds(&mut self) -> (res: ParseResult)
        requires
            old(self).wf(),
        ensures
            Self::rule_done(RULE_TYPE_NO_BOUNDS, *old(self), *final(self), res),
            Self::close_paren_here(*old(self)) && Self::group_free(*old(self), RULE_TYPE_NO_BOUNDS) ==> res is Err && final(self).pos()
                == old(self).pos() && Self::same_except(*old(self), *final(self), old(self).pos(), RULE_TYPE_NO_BOUNDS),
        decreases old(self).rem(), old(self).absent(), 4nat,
    {
        let ghost s0 = *self;
        let ghost paren = Self::close_paren_here(s0) && Self::group_free(s0, RULE_TYPE_NO_BOUNDS);
        let key = self.make_key(RULE_TYPE_NO_BOUNDS);
        if let Some(memo) = self.get_memo(&key) {
            return Ok(memo);
        }
        let ghost s1 = *self;
        proof {
            if paren {
                Self::lemma_enter_group(s0, s1, s1, RULE_TYPE_NO_BOUNDS, RULE_TYPE_PATH);
            }
        }
        let start = self.tokens.get_position();
        let result = match self.parse_type_path() {
            Ok(m) => Ok(m),
            Err(_) => {
                self.tokens.set_position(start);
                Err(ParseError::NotMatch)
            },
        };
        let ghost s3 = *self;
        let r = self.make_memo_from_result(key, result);
        proof {
            if paren {
                Self::lemma_enter_group(s0, s1, s3, RULE_TYPE_NO_BOUNDS, RULE_TYPE_PATH);
                Self::lemma_leave_group(s0, s3, *self, RULE_TYPE_NO_BOUNDS);
            }
        }
        r
    }

    // TypePath ::= `::`? TypePathSegment (`::` TypePathSegment)*
    fn parse_type_path(&mut self) -> (res: ParseResult)
        requires
            old(self).wf(),
        ensures
            Self::rule_done(RULE_TYPE_PATH, *old(self), *final(self), res),
            Self::close_paren_here(*old(self)) && Self::group_free(*old(self), RULE_TYPE_PATH) ==> res is Err && final(self).pos()
                == old(self).pos() && Self::same_except(*old(self), *final(self), old(self).pos(), RULE_TYPE_PATH),
        decreases old(self).rem(), old(self).absent(), 3nat,
    {
        let key = self.make_key(RULE_TYPE_PATH);
        if let Some(memo) = self.get_memo(&key) {
            return Ok(memo);
        }
        if matches!(self.tokens.get_operator(), Some(MusubuOperator::Path)) {
            self.tokens.next();
        }
        let Ok(first) = node_of(self.parse_type_path_segment()) else {
            return self.make_memo_from_result(key, Err(ParseError::NotMatch));
        };
        let mut segments: SpannedVec<PathSegment> = vec![expect_path_segment(first)];
        let mut missing = false;
        loop
            invariant
                Self::advanced(*old(self), *self),
                key.rule == RULE_TYPE_PATH,
                key.position == old(self).pos(),
            decreases self.rem(),
        {
            let start = self.tokens.get_position();
            if !matches!(self.tokens.get_operator(), Some(MusubuOperator::Path)) {
                break;
            }
            self.tokens.next();
            match self.parse_type_path_segment() {
                Ok(memo) => match memo.get_node() {
                    Some(node) => segments.push(expect_path_segment(node)),
                    None => missing = true,
                },
                Err(_) => {
                    self.tokens.set_position(start);
                    break;
                },
            }
        }
        if missing {
            return self.make_memo_from_result(key, Err(ParseError::UnexpectedAST));
        }
        let span = self.make_span(&key);
        let path_type = TypeKind::PathType(Spanned { node: Box::new(Path { segments }), span });
        let span = self.make_span(&key);
        self.make_memo_from_node(key, path_type.make_node(span))
    }

    // TypePathSegment ::= PathIdentSegment (`::`? (GenericArgs | TypePathFn))?
    fn parse_type_path_segment(&mut self) -> (res: ParseResult)
        requires
            old(self).wf(),
        ensures
            Self::rule_done(RULE_TYPE_PATH_SEGMENT, *old(self), *final(self), res),
            Self::close_paren_here(*old(self)) && Self::group_free(*old(self), RULE_TYPE_PATH_SEGMENT) ==> res is Err && final(self).pos()
                == old(self).pos() && Self::same_except(*old(self), *final(self), old(self).pos(), RULE_TYPE_PATH_SEGMENT),
        decreases old(self).rem(), old(self).absent(), 2nat,
    {
        let key = self.make_key(RULE_TYPE_PATH_SEGMENT);
        if let Some(memo) = self.get_memo(&key) {
            return Ok(memo);
        }
        let Ok(segment) = node_of(self.parse_path_ident_segment()) else {
            return self.make_memo_from_result(key, Err(ParseError::NotMatch));
        };
        let name = expect_segment(segment);
        let position = self.tokens.get_position();
        if matches!(self.tokens.get_operator(), Some(MusubuOperator::Path)) {
            self.tokens.next();
        }
        let start = self.tokens.get_position();
        let result = match self.parse_generic_args() {
            Ok(m) => Ok(m),
            Err(_) => {
                self.tokens.set_position(start);
                match self.parse_type_path_fn() {
                    Ok(m) => Ok(m),
                    Err(_) => {
                        self.tokens.set_position(start);
                        Err(ParseError::NotMatch)
                    },
                }
            },
        };
        let arguments = match result {
            Ok(memo) => match memo.get_node() {
                Some(ASTNode::Arguments(args)) => args,
                Some(_) => return self.make_memo_from_result(key, Err(ParseError::UnexpectedAST)),
                None => Vec::new(),
            },
            Err(_) => {
                self.tokens.set_position(position);
                Vec::new()
            },
        };
        let span = self.make_span(&key);
        self.make_memo_from_node(key, PathSegment { ident: name.node, arguments }.make_node(span))
    }

    // TypePathFn ::= `(` TypePathFnInputs? `)` (`->` TypeNoBounds)?
    fn parse_type_path_fn(&mut self) -> (res: ParseResult)
        requires
            old(self).wf(),
        ensures
            Self::rule_done(RULE_TYPE_PATH_FN, *old(self), *final(self), res),
        decreases old(self).rem(), old(self).absent(), 1nat,
    {
        let key = self.make_key(RULE_TYPE_PATH_FN);
        if let Some(memo) = self.get_memo(&key) {
            return Ok(memo);
        }
        if !matches!(self.tokens.get_operator(), Some(MusubuOperator::LeftParenthesis)) {
            return self.make_memo_from_result(key, Err(ParseError::NotMatch));
        }
        self.tokens.next();
        let position = self.tokens.get_position();
        let params = match self.parse_type_path_inputs() {
            Ok(memo) => match memo.get_node() {
                Some(node) => expect_arguments(node),
                None => Vec::new(),
            },
            Err(_) => {
                self.tokens.set_position(position);
                Vec::new()
            },
        };
        if !matches!(self.tokens.get_operator(), Some(MusubuOperator::RightParenthesis)) {
            return self.make_memo_from_result(key, Err(ParseError::NotMatch));
        }
        self.tokens.next();
        let position = self.tokens.get_position();
        let result = if matches!(self.tokens.get_operator(), Some(MusubuOperator::RightArrow)) {
            self.tokens.next();
            self.parse_type_no_bounds()
        } else {
            Err(ParseError::NotMatch)
        };
        let return_type = match result {
            Ok(memo) => match memo.get_node() {
                Some(ASTNode::Type(type_kind)) => Spanned { node: Box::new(type_kind.node), span: type_kind.span },
                _ => Spanned { node: Box::new(TypeKind::Primitive(PrimitiveType::Unit)), span: Span::default() },
            },
            Err(_) => {
                self.tokens.set_position(position);
                Spanned { node: Box::new(TypeKind::Primitive(PrimitiveType::Unit)), span: Span::default() }
            },
        };
        let span = self.make_span(&key);
        self.make_memo_from_node(key, TypeKind::Function { params, return_type }.make_node(span))
    }

    // TypePathFnInputs ::= Type (`,` Type)*
    fn parse_type_path_inputs(&mut self) -> (res: ParseResult)
        requires
            old(self).wf(),
        ensures
            Self::rule_done(RULE_TYPE_PATH_FN_INPUTS, *old(self), *final(self), res),
        decreases old(self).rem(), old(self).absent(), 6nat,
    {
        let key = self.make_key(RULE_TYPE_PATH_FN_INPUTS);
        if let Some(memo) = self.get_memo(&key) {
            return Ok(memo);
        }
        let Ok(first) = node_of(self.parse_type()) else {
            return self.make_memo_from_result(key, Err(ParseError::NotMatch));
        };
        let mut types: SpannedVec<TypeKind> = vec![expect_type(first)];
        let mut missing = false;
        loop
            invariant
                Self::advanced(*old(self), *self),
                key.rule == RULE_TYPE_PATH_FN_INPUTS,
                key.position == old(self).pos(),
            decreases self.rem(),
        {
            let start = self.tokens.get_position();
            if !matches!(self.tokens.get_operator(), Some(MusubuOperator::Comma)) {
                break;
            }
            self.tokens.next();
            match self.parse_type() {
                Ok(memo) => match memo.get_node() {
                    Some(node) => types.push(expect_type(node)),
                    None => missing = true,
                },
                Err(_) => {
                    self.tokens.set_position(start);
                    break;
                },
            }
        }
        if missing {
            return self.make_memo_from_result(key, Err(ParseError::UnexpectedAST));
        }
        self.make_memo_from_node(key, ASTNode::Arguments(types))
    }

    // Expression ::= ExpressionWithoutBlock | ExpressionWithBlock
    fn parse_expression(&mut self) -> (res: ParseResult)
        requires
            old(self).wf(),
        ensures
            Self::rule_done(RULE_EXPRESSION, *old(self), *final(self), res),
            Self::lone_literal(*old(self)) ==> (res matches Ok(MemoResult::Match { .. })) && final(self).pos()
                == old(self).pos() + 1,
        decreases old(self).rem(), old(self).absent(), 9nat,
    {
        let key = self.make_key(RULE_EXPRESSION);
        let memo = self.get_memo_uncheck(&key);
        match memo {
            Some(MemoResult::Pending) => {},
            Some(m) => {
                proof {
                    assert(entry_ok(memo_at(old(self).memo@, key.position as int, key.rule as int), key.position as int, key.rule as int, old(self).spec_tokens()));
                }
                return Ok(m);
            },
            None => {},
        }
        let start = self.tokens.get_position();
        let result = match self.parse_expression_without_block() {
            Ok(m) => Ok(m),
            Err(_) => {
                self.tokens.set_position(start);
                match self.parse_expression_with_block() {
                    Ok(m) => Ok(m),
                    Err(_) => {
                        self.tokens.set_position(start);
                        Err(ParseError::NotMatch)
                    },
                }
            },
        };
        let Ok(result) = result else {
            return self.make_memo_from_result(key, Err(ParseError::UnexpectedAST));
        };
        let Some(node) = result.get_node() else {
            return self.make_memo_from_result(key, Err(ParseError::UnexpectedAST));
        };
        let expr = expect_expression(node);
        self.make_memo_from_node(key, ASTNode::Expression(expr))
    }

    // ExpressionWithoutBlock ::= LiteralExpression | PathExpression | ContinueExpression
    //                          | BreakExpression | ReturnExpression
    // Tried first through the operator parser; the operator parser reaches this rule again at
    // the same position, and then tries the alternatives.
    fn parse_expression_without_block(&mut self) -> (res: ParseResult)
        requires
            old(self).wf(),
        ensures
            Self::rule_done(RULE_EXPRESSION_WITHOUT_BLOCK, *old(self), *final(self), res),
            Self::lone_literal(*old(self)) ==> (res matches Ok(MemoResult::Match { .. })) && final(self).pos()
                == old(self).pos() + 1,
        decreases old(self).rem(), old(self).absent(), 8nat,
    {
        let key = self.make_key(RULE_EXPRESSION_WITHOUT_BLOCK);
        let memo = self.get_memo_uncheck(&key);
        match memo {
            Some(MemoResult::Pending) => {
                let start = self.tokens.get_position();
                let result = match self.parse_literal_expression() {
                    Ok(m) => Ok(m),
                    Err(_) => {
                        self.tokens.set_position(start);
                        match self.parse_path_expression() {
                            Ok(m) => Ok(m),
                            Err(_) => {
                                self.tokens.set_position(start);
                                match self.parse_continue_expression() {
                                    Ok(m) => Ok(m),
                                    Err(_) => {
                                        self.tokens.set_position(start);
                                        match self.parse_break_expression() {
                                            Ok(m) => Ok(m),
                                            Err(_) => {
                                                self.tokens.set_position(start);
                                                match self.parse_return_expression() {
                                                    Ok(m) => Ok(m),
                                                    Err(_) => {
                                                        self.tokens.set_position(start);
                                                        Err(ParseError::NotMatch)
                                                    },
                                                }
                                            },
                                        }
                                    },
                                }
                            },
                        }
                    },
                };
                self.make_memo_from_result(key, result)
            },
            Some(m) => {
                proof {
                    assert(entry_ok(memo_at(old(self).memo@, key.position as int, key.rule as int), key.position as int, key.rule as int, old(self).spec_tokens()));
                }
                Ok(m)
            },
            None => {
                let bp = match self.bp_stack.pop() {
                    Some(bp) => bp,
                    None => 0,
                };
                let result = self.pratt_parse(bp);
                self.make_memo_from_result(key, result)
            },
        }
    }

    // LiteralExpression ::= LITERAL | `true` | `false`
    fn parse_literal_expression(&mut self) -> (res: ParseResult)
        requires
            old(self).wf(),
        ensures
            Self::rule_done(RULE_LITERAL_EXPRESSION, *old(self), *final(self), res),
            Self::lone_literal(*old(self)) ==> (res matches Ok(MemoResult::Match { .. })) && final(self).pos()
                == old(self).pos() + 1,
        decreases old(self).rem(), old(self).absent(), 1nat,
    {
        let key = self.make_key(RULE_LITERAL_EXPRESSION);
        if let Some(memo) = self.get_memo(&key) {
            return Ok(memo);
        }
        let literal = if let Some(literal) = self.tokens.get_literal() {
            let literal: MusubuLiteral = literal.clone();
            let exponent = self.exponent_value(self.tokens.get_position());
            self.tokens.next();
            match literal.to_literal(exponent) {
                Ok(literal) => literal,
                Err(err) => return self.make_memo_from_result(key, Err(err)),
            }
        } else if let Some(keyword) = self.tokens.get_keyword() {
            let keyword = *keyword;
            self.tokens.next();
            match keyword {
                MusubuKeyword::True => Literal::Bool(true),
                MusubuKeyword::False => Literal::Bool(false),
                _ => return self.make_memo_from_result(key, Err(ParseError::NotMatch)),
            }
        } else {
            return self.make_memo_from_result(key, Err(ParseError::NotMatch));
        };
        let span = self.make_span(&key);
        let expr = Expression::Literal(Spanned { node: literal, span });
        let span = self.make_span(&key);
        self.make_memo_from_node(key, expr.make_node(span))
    }

    // PathExpression ::= PathInExpression | QualifiedPathInExpression
    fn parse_path_expression(&mut self) -> (res: ParseResult)
        requires
            old(self).wf(),
        ensures
            Self::rule_done(RULE_PATH_EXPRESSION, *old(self), *final(self), res),
        decreases old(self).rem(), old(self).absent(), 7nat,
    {
        let key = self.make_key(RULE_PATH_EXPRESSION);
        if let Some(memo) = self.get_memo(&key) {
            return Ok(memo);
        }
        let start = self.tokens.get_position();
        let result = match self.parse_path_in_expression() {
            Ok(m) => Ok(m),
            Err(_) => {
                self.tokens.set_position(start);
                match self.parse_qualified_path_in_expression() {
                    Ok(m) => Ok(m),
                    Err(_) => {
                        self.tokens.set_position(start);
                        Err(ParseError::NotMatch)
                    },
                }
            },
        };
        let Ok(result) = result else {
            return self.make_memo_from_result(key, Err(ParseError::NotMatch));
        };
        let Some(node) = result.get_node() else {
            return self.make_memo_from_result(key, Err(ParseError::NotMatch));
        };
        let path = expect_path(node);
        let span = self.make_span(&key);
        self.make_memo_from_node(key, Expression::Path(path).make_node(span))
    }

    // ContinueExpression ::= `continue`
    fn parse_continue_expression(&mut self) -> (res: ParseResult)
        requires
            old(self).wf(),
        ensures
            Self::rule_done(RULE_CONTINUE_EXPRESSION, *old(self), *final(self), res),
        decreases old(self).rem(), old(self).absent(), 1nat,
    {
        let key = self.make_key(RULE_CONTINUE_EXPRESSION);
        if let Some(memo) = self.get_memo(&key) {
            return Ok(memo);
        }
        if !matches!(self.tokens.get_keyword(), Some(MusubuKeyword::Continue)) {
            return self.make_memo_from_result(key, Err(ParseError::NotMatch));
        }
        self.tokens.next();
        let span = self.make_span(&key);
        self.make_memo_from_node(key, Expression::Continue { label: None }.make_node(span))
    }

    // BreakExpression ::= `break`
    fn parse_break_expression(&mut self) -> (res: ParseResult)
        requires
            old(self).wf(),
        ensures
            Self::rule_done(RULE_BREAK_EXPRESSION, *old(self), *final(self), res),
        decreases old(self).rem(), old(self).absent(), 1nat,
    {
        let key = self.make_key(RULE_BREAK_EXPRESSION);
        if let Some(memo) = self.get_memo(&key) {
            return Ok(memo);
        }
        if !matches!(self.tokens.get_keyword(), Some(MusubuKeyword::Break)) {
            return self.make_memo_from_result(key, Err(ParseError::NotMatch));
        }
        self.tokens.next();
        let span = self.make_span(&key);
        self.make_memo_from_node(key, Expression::Break { label: None, expression: None }.make_node(span))
    }

    // ReturnExpression ::= `return` Expression?
    fn parse_return_expression(&mut self) -> (res: ParseResult)
        requires
            old(self).wf(),
        ensures
            Self::rule_done(RULE_RETURN_EXPRESSION, *old(self), *final(self), res),
        decreases old(self).rem(), old(self).absent(), 1nat,
    {
        let key = self.make_key(RULE_RETURN_EXPRESSION);
        if let Some(memo) = self.get_memo(&key) {
            return Ok(memo);
        }
        if !matches!(self.tokens.get_keyword(), Some(MusubuKeyword::Return)) {
            return self.make_memo_from_result(key, Err(ParseError::NotMatch));
        }
        self.tokens.next();
        let position = self.tokens.get_position();
        let expr = match self.parse_expression() {
            Ok(memo) => match memo.get_node() {
                Some(ASTNode::Expression(e)) => Some(e),
                _ => None,
            },
            Err(_) => {
                self.tokens.set_position(position);
                None
            },
        };
        let span = self.make_span(&key);
        self.make_memo_from_node(key, Expression::Return(expr).make_node(span))
    }

    // ExpressionWithBlock ::= BlockExpression | LoopExpression | IfExpression
    fn parse_expression_with_block(&mut self) -> (res: ParseResult)
        requires
            old(self).wf(),
        ensures
            Self::rule_done(RULE_EXPRESSION_WITH_BLOCK, *old(self), *final(self), res),
        decreases old(self).rem(), old(self).absent(), 3nat,
    {
        let key = self.make_key(RULE_EXPRESSION_WITH_BLOCK);
        if let Some(memo) = self.get_memo(&key) {
            return Ok(memo);
        }
        let start = self.tokens.get_position();
        let result = match self.parse_block_expression() {
            Ok(m) => Ok(m),
            Err(_) => {
                self.tokens.set_position(start);
                match self.parse_loop_expression() {
                    Ok(m) => Ok(m),
                    Err(_) => {
                        self.tokens.set_position(start);
                        match self.parse_if_expression() {
                            Ok(m) => Ok(m),
                            Err(_) => {
                                self.tokens.set_position(start);
                                Err(ParseError::NotMatch)
                            },
                        }
                    },
                }
            },
        };
        self.make_memo_from_result(key, result)
    }

    // BlockExpression ::= `{` Statements? `}`
    fn parse_block_expression(&mut self) -> (res: ParseResult)
        requires
            old(self).wf(),
        ensures
            Self::rule_done(RULE_BLOCK_EXPRESSION, *old(self), *final(self), res),
        decreases old(self).rem(), old(self).absent(), 1nat,
    {
        let key = self.make_key(RULE_BLOCK_EXPRESSION);
        if let Some(memo) = self.get_memo(&key) {
            return Ok(memo);
        }
        if !matches!(self.tokens.get_operator(), Some(MusubuOperator::LeftBrace)) {
            return self.make_memo_from_result(key, Err(ParseError::NotMatch));
        }
        self.tokens.next();
        let position = self.tokens.get_position();
        let statements = match self.parse_statements() {
            Ok(memo) => match memo.get_node() {
                Some(node) => expect_statements(node),
                None => Vec::new(),
            },
            Err(_) => {
                self.tokens.set_position(position);
                Vec::new()
            },
        };
        if !matches!(self.tokens.get_operator(), Some(MusubuOperator::RightBrace)) {
            return self.make_memo_from_result(key, Err(ParseError::NotMatch));
        }
        self.tokens.next();
        let span = self.make_span(&key);
        self.make_memo_from_node(key, Expression::Block(statements).make_node(span))
    }

    // LoopExpression ::= InfiniteLoopExpression | PredicateLoopExpression | IteratorLoopExpression
    fn parse_loop_expression(&mut self) -> (res: ParseResult)
        requires
            old(self).wf(),
        ensures
            Self::rule_done(RULE_LOOP_EXPRESSION, *old(self), *final(self), res),
        decreases old(self).rem(), old(self).absent(), 2nat,
    {
        let key = self.make_key(RULE_LOOP_EXPRESSION);
        if let Some(memo) = self.get_memo(&key) {
            return Ok(memo);
        }
        let start = self.tokens.get_position();
        let result = match self.parse_infinite_loop_expression() {
            Ok(m) => Ok(m),
            Err(_) => {
                self.tokens.set_position(start);
                match self.parse_predicate_loop_expression() {
                    Ok(m) => Ok(m),
                    Err(_) => {
                        self.tokens.set_position(start);
                        match self.parse_iterator_loop_expression() {
                            Ok(m) => Ok(m),
                            Err(_) => {
                                self.tokens.set_position(start);
                                Err(ParseError::NotMatch)
                            },
                        }
                    },
                }
            },
        };
        let Ok(result) = result else {
            return self.make_memo_from_result(key, Err(ParseError::NotMatch));
        };
        let Some(node) = result.get_node() else {
            return self.make_memo_from_result(key, Err(ParseError::NotMatch));
        };
        let loop_expr = expect_loop(node);
        let span = self.make_span(&key);
        self.make_memo_from_node(key, Expression::Loop(loop_expr).make_node(span))
    }

    // IfExpression ::= `if` Expression BlockExpression ( `else` ( BlockExpression | IfExpression ) )?
    fn parse_if_expression(&mut self) -> (res: ParseResult)
        requires
            old(self).wf(),
        ensures
            Self::rule_done(RULE_IF_EXPRESSION, *old(self), *final(self), res),
        decreases old(self).rem(), old(self).absent(), 1nat,
    {
        let key = self.make_key(RULE_IF_EXPRESSION);
        if let Some(memo) = self.get_memo(&key) {
            return Ok(memo);
        }
        if !matches!(self.tokens.get_keyword(), Some(MusubuKeyword::If)) {
            return self.make_memo_from_result(key, Err(ParseError::NotMatch));
        }
        self.tokens.next();
        let Ok(condition) = expr_of(self.parse_expression()) else {
            return self.make_memo_from_result(key, Err(ParseError::NotMatch));
        };
        let Ok(then_body) = expr_of(self.parse_block_expression()) else {
            return self.make_memo_from_result(key, Err(ParseError::NotMatch));
        };
        let else_body = if matches!(self.tokens.get_keyword(), Some(MusubuKeyword::Else)) {
            self.tokens.next();
            if let Ok(ASTNode::Expression(expr)) = node_of(self.parse_block_expression()) {
                Some(expr)
            } else if let Ok(ASTNode::Expression(expr)) = node_of(self.parse_if_expression()) {
                Some(expr)
            } else {
                return self.make_memo_from_result(key, Err(ParseError::UnexpectedAST));
            }
        } else {
            None
        };
        let span = self.make_span(&key);
        self.make_memo_from_node(key, Expression::If { condition, then_body, else_body }.make_node(span))
    }

    // Statements ::= Statement+ | Statement+ ExpressionWithoutBlock | ExpressionWithoutBlock
    fn parse_statements(&mut self) -> (res: ParseResult)
        requires
            old(self).wf(),
        ensures
            Self::rule_done(RULE_STATEMENTS, *old(self), *final(self), res),
        decreases old(self).rem(), old(self).absent(), 11nat,
    {
        let key = self.make_key(RULE_STATEMENTS);
        if let Some(memo) = self.get_memo(&key) {
            return Ok(memo);
        }
        let mut statements: SpannedVec<Statement> = Vec::new();
        let mut missing = false;
        if let Ok(first) = self.parse_statement() {
            match first.get_node() {
                Some(node) => statements.push(expect_statement(node)),
                None => missing = true,
            }
            loop
                invariant
                    Self::advanced(*old(self), *self),
                    key.rule == RULE_STATEMENTS,
                    key.position == old(self).pos(),
                decreases self.rem(),
            {
                let start = self.tokens.get_position();
                match self.parse_statement() {
                    Ok(memo) => {
                        if self.tokens.get_position() <= start {
                            // a statement that reads no token would repeat forever: stop here
                            break;
                        }
                        match memo.get_node() {
                            Some(node) => statements.push(expect_statement(node)),
                            None => missing = true,
                        }
                    },
                    Err(_) => {
                        self.tokens.set_position(start);
                        break;
                    },
                }
            }
            if missing {
                return self.make_memo_from_result(key, Err(ParseError::NotMatch));
            }
        }
        let position = self.tokens.get_position();
        match self.parse_expression_without_block() {
            Ok(memo) => {
                if let Some(node) = memo.get_node() {
                    let expr = expect_expression(node);
                    let span = expr.span;
                    statements.push(Spanned { node: Statement::Expression(expr), span });
                }
            },
            Err(_) => {
                self.tokens.set_position(position);
            },
        }
        if statements.len() == 0 {
            return self.make_memo_from_result(key, Err(ParseError::NotMatch));
        }
        self.make_memo_from_node(key, ASTNode::Statements(statements))
    }

    // Statement ::= `;` | Item | LetStatement | ExpressionStatement
    fn parse_statement(&mut self) -> (res: ParseResult)
        requires
            old(self).wf(),
        ensures
            Self::rule_done(RULE_STATEMENT, *old(self), *final(self), res),
        decreases old(self).rem(), old(self).absent(), 10nat,
    {
        let key = self.make_key(RULE_STATEMENT);
        if let Some(memo) = self.get_memo(&key) {
            return Ok(memo);
        }
        let start = self.tokens.get_position();
        let semicolon = if matches!(self.tokens.get_operator(), Some(MusubuOperator::Semicolon)) {
            let semicolon_key = self.make_key(RULE_SEMICOLON);
            self.tokens.next();
            let span = self.make_span(&semicolon_key);
            self.make_memo_from_node(semicolon_key, Statement::Semicolon.make_node(span))
        } else {
            Err(ParseError::NotMatch)
        };
        let result = match semicolon {
            Ok(m) => Ok(m),
            Err(_) => {
                self.tokens.set_position(start);
                match self.parse_item() {
                    Ok(m) => Ok(m),
                    Err(_) => {
                        self.tokens.set_position(start);
                        match self.parse_let_statement() {
                            Ok(m) => Ok(m),
                            Err(_) => {
                                self.tokens.set_position(start);
                                match self.parse_expression_statement() {
                                    Ok(m) => Ok(m),
                                    Err(_) => {
                                        self.tokens.set_position(start);
                                        Err(ParseError::NotMatch)
                                    },
                                }
                            },
                        }
                    },
                }
            },
        };
        let Ok(result) = result else {
            return self.make_memo_from_result(key, Err(ParseError::NotMatch));
        };
        let Some(node) = result.get_node() else {
            return self.make_memo_from_result(key, Err(ParseError::NotMatch));
        };
        let statement = match node {
            ASTNode::Item { item, .. } => Statement::Item(item),
            ASTNode::Expression(expr) => Statement::Expression(expr),
            ASTNode::Statement(statement) => statement.node,
            _ => vstd::pervasive::unreached(),
        };
        let span = self.make_span(&key);
        self.make_memo_from_node(key, statement.make_node(span))
    }

    // LetStatement ::= `let` PatternNoTopAlt ( `:` Type )? (`=` Expression )? `;`
    fn parse_let_statement(&mut self) -> (res: ParseResult)
        requires
            old(self).wf(),
        ensures
            Self::rule_done(RULE_LET_STATEMENT, *old(self), *final(self), res),
        decreases old(self).rem(), old(self).absent(), 1nat,
    {
        let key = self.make_key(RULE_LET_STATEMENT);
        if let Some(memo) = self.get_memo(&key) {
            return Ok(memo);
        }
        if !matches!(self.tokens.get_keyword(), Some(MusubuKeyword::Let)) {
            return self.make_memo_from_result(key, Err(ParseError::NotMatch));
        }
        self.tokens.next();
        let Ok(pattern_kind) = node_of(self.parse_pattern_no_top_alt()) else {
            return self.make_memo_from_result(key, Err(ParseError::UnexpectedAST));
        };
        let ASTNode::Pattern(pattern) = pattern_kind else {
            return self.make_memo_from_result(key, Err(ParseError::UnexpectedAST));
        };
        let variable_type = if matches!(self.tokens.get_operator(), Some(MusubuOperator::Colon)) {
            self.tokens.next();
            match node_of(self.parse_type()) {
                Ok(node) => Some(expect_type(node)),
                Err(_) => None,
            }
        } else {
            None
        };
        let initializer = if matches!(self.tokens.get_assign_operator(), Some(AssignOperator::Assign)) {
            self.tokens.next();
            match node_of(self.parse_expression()) {
                Ok(node) => Some(expect_expression(node)),
                Err(_) => None,
            }
        } else {
            None
        };
        if !matches!(self.tokens.get_operator(), Some(MusubuOperator::Semicolon)) {
            return self.make_memo_from_result(key, Err(ParseError::NotMatch));
        }
        self.tokens.next();
        let span = self.make_span(&key);
        self.make_memo_from_node(
            key,
            Statement::Let { name: pattern, variable_type, initializer, label: None }.make_node(span),
        )
    }

    // ExpressionStatement ::= ExpressionWithoutBlock `;` | ExpressionWithBlock `;`?
    fn parse_expression_statement(&mut self) -> (res: ParseResult)
        requires
            old(self).wf(),
        ensures
            Self::rule_done(RULE_EXPRESSION_STATEMENT, *old(self), *final(self), res),
        decreases old(self).rem(), old(self).absent(), 9nat,
    {
        let key = self.make_key(RULE_EXPRESSION_STATEMENT);
        if let Some(memo) = self.get_memo(&key) {
            return Ok(memo);
        }
        let start = self.tokens.get_position();
        let without_block = match self.parse_expression_without_block() {
            Ok(result) => {
                if matches!(self.tokens.get_operator(), Some(MusubuOperator::Semicolon)) {
                    self.tokens.next();
                    Ok(result)
                } else {
                    Err(ParseError::NotMatch)
                }
            },
            Err(e) => Err(e),
        };
        let result = match without_block {
            Ok(m) => Ok(m),
            Err(_) => {
                self.tokens.set_position(start);
                let with_block = match self.parse_expression_with_block() {
                    Ok(result) => {
                        if matches!(self.tokens.get_operator(), Some(MusubuOperator::Semicolon)) {
                            self.tokens.next();
                        }
                        Ok(result)
                    },
                    Err(e) => Err(e),
                };
                match with_block {
                    Ok(m) => Ok(m),
                    Err(_) => {
                        self.tokens.set_position(start);
                        Err(ParseError::NotMatch)
                    },
                }
            },
        };
        let Ok(memo) = result else {
            return self.make_memo_from_result(key, Err(ParseError::NotMatch));
        };
        let Some(node) = memo.get_node() else {
            return self.make_memo_from_result(key, Err(ParseError::NotMatch));
        };
        let expr = expect_expression(node);
        let span = self.make_span(&key);
        self.make_memo_from_node(key, Statement::Expression(expr).make_node(span))
    }

    // CallParams ::= Expression ( `,` Expression )* `,`?
    fn parse_call_params(&mut self) -> (res: ParseResult)
        requires
            old(self).wf(),
        ensures
            Self::rule_done(RULE_CALL_PARAMS, *old(self), *final(self), res),
        decreases old(self).rem(), old(self).absent(), 10nat,
    {
        let key = self.make_key(RULE_CALL_PARAMS);
        if let Some(memo) = self.get_memo(&key) {
            return Ok(memo);
        }
        let Ok(expr) = expr_of(self.parse_expression()) else {
            return self.make_memo_from_result(key, Err(ParseError::NotMatch));
        };
        let mut params: Vec<SpannedBox<Expression>> = vec![expr];
        let mut missing = false;
        loop
            invariant
                Self::advanced(*old(self), *self),
                key.rule == RULE_CALL_PARAMS,
                key.position == old(self).pos(),
            decreases self.rem(),
        {
            let start = self.tokens.get_position();
            if !matches!(self.tokens.get_operator(), Some(MusubuOperator::Comma)) {
                break;
            }
            self.tokens.next();
            match self.parse_expression() {
                Ok(memo) => match memo.get_node() {
                    Some(node) => params.push(expect_expression(node)),
                    None => missing = true,
                },
                Err(_) => {
                    self.tokens.set_position(start);
                    break;
                },
            }
        }
        if missing {
            return self.make_memo_from_result(key, Err(ParseError::NotMatch));
        }
        if matches!(self.tokens.get_operator(), Some(MusubuOperator::Comma)) {
            self.tokens.next();
        }
        self.make_memo_from_node(key, ASTNode::CallParams(params))
    }

    // PathInExpression ::= `::`? PathExprSegment ( `::` PathExprSegment )*
    fn parse_path_in_expression(&mut self) -> (res: ParseResult)
        requires
            old(self).wf(),
        ensures
            Self::rule_done(RULE_PATH_IN_EXPRESSION, *old(self), *final(self), res),
        decreases old(self).rem(), old(self).absent(), 3nat,
    {
        let key = self.make_key(RULE_PATH_IN_EXPRESSION);
        if let Some(memo) = self.get_memo(&key) {
            return Ok(memo);
        }
        if matches!(self.tokens.get_operator(), Some(MusubuOperator::Path)) {
            self.tokens.next();
        }
        let Ok(first_segment) = node_of(self.parse_path_expr_segment()) else {
            return self.make_memo_from_result(key, Err(ParseError::NotMatch));
        };
        let mut segments: SpannedVec<PathSegment> = vec![expect_path_segment(first_segment)];
        let mut missing = false;
        loop
            invariant
                Self::advanced(*old(self), *self),
                key.rule == RULE_PATH_IN_EXPRESSION,
                key.position == old(self).pos(),
            decreases self.rem(),
        {
            let start = self.tokens.get_position();
            if matches!(self.tokens.get_operator(), Some(MusubuOperator::Path)) {
                self.tokens.next();
            }
            match self.parse_path_expr_segment() {
                Ok(memo) => {
                    if self.tokens.get_position() <= start {
                        // an element that reads no token would repeat forever: stop here
                        break;
                    }
                    match memo.get_node() {
                        Some(node) => segments.push(expect_path_segment(node)),
                        None => missing = true,
                    }
                },
                Err(_) => {
                    self.tokens.set_position(start);
                    break;
                },
            }
        }
        if missing {
            return self.make_memo_from_result(key, Err(ParseError::UnexpectedAST));
        }
        let span = self.make_span(&key);
        self.make_memo_from_node(key, Path { segments }.make_node(span))
    }

    // PathExprSegment ::= PathIdentSegment ( `::` GenericArgs )?
    fn parse_path_expr_segment(&mut self) -> (res: ParseResult)
        requires
            old(self).wf(),
        ensures
            Self::rule_done(RULE_PATH_EXPR_SEGMENT, *old(self), *final(self), res),
        decreases old(self).rem(), old(self).absent(), 2nat,
    {
        let key = self.make_key(RULE_PATH_EXPR_SEGMENT);
        if let Some(memo) = self.get_memo(&key) {
            return Ok(memo);
        }
        let Ok(result) = node_of(self.parse_path_ident_segment()) else {
            return self.make_memo_from_result(key, Err(ParseError::NotMatch));
        };
        let segment = expect_segment(result);
        let position = self.tokens.get_position();
        let result = if matches!(self.tokens.get_operator(), Some(MusubuOperator::Path)) {
            self.tokens.next();
            self.parse_generic_args()
        } else {
            Err(ParseError::NotMatch)
        };
        let arguments = match result {
            Ok(memo) => match memo.get_node() {
                Some(node) => expect_arguments(node),
                None => Vec::new(),
            },
            Err(_) => {
                self.tokens.set_position(position);
                Vec::new()
            },
        };
        let span = self.make_span(&key);
        self.make_memo_from_node(key, PathSegment { ident: segment.node, arguments }.make_node(span))
    }

    // PathIdentSegment ::= IDENTIFIER
    fn parse_path_ident_segment(&mut self) -> (res: ParseResult)
        requires
            old(self).wf(),
        ensures
            Self::rule_done(RULE_PATH_IDENT_SEGMENT, *old(self), *final(self), res),
            Self::close_paren_here(*old(self)) && Self::group_free(*old(self), RULE_PATH_IDENT_SEGMENT) ==> res is Err && final(self).pos()
                == old(self).pos() && Self::same_except(*old(self), *final(self), old(self).pos(), RULE_PATH_IDENT_SEGMENT),
        decreases old(self).rem(), old(self).absent(), 1nat,
    {
        let key = self.make_key(RULE_PATH_IDENT_SEGMENT);
        if let Some(memo) = self.get_memo(&key) {
            return Ok(memo);
        }
        let Some(ident) = self.tokens.get_identifier() else {
            return self.make_memo_from_result(key, Err(ParseError::NotMatch));
        };
        let ident = String::from_str(ident);
        self.tokens.next();
        let span = self.make_span(&key);
        self.make_memo_from_node(key, ASTNode::Segment(Spanned { node: ident, span }))
    }

    // GenericArgs ::= `<` `>` | `<` ( GenericArg `,` )* `>`
    // The arguments are read and dropped; the answer is not recorded.
    fn parse_generic_args(&mut self) -> (res: ParseResult)
        requires
            old(self).wf(),
        ensures
            Self::rule_done(RULE_GENERIC_ARGS, *old(self), *final(self), res),
            kind_at(old(self).spec_tokens(), old(self).pos()) == Some(
                MusubuTokenKind::Operator(MusubuOperator::Comparison(ComparisonOperator::LessThan)),
            ) && kind_at(old(self).spec_tokens(), old(self).pos() + 1) == Some(
                MusubuTokenKind::Operator(MusubuOperator::Comparison(ComparisonOperator::GreaterThan)),
            ) && unsettled(old(self).memo_entry(RULE_GENERIC_ARGS)) ==> (res matches Ok(
                MemoResult::Match { memo: Memo::ASTNode(ASTNode::Arguments(v)), .. },
            ) && v@.len() == 0) && final(self).pos() == old(self).pos() + 2,
        decreases old(self).rem(), old(self).absent(), 1nat,
    {
        let key = self.make_key(RULE_GENERIC_ARGS);
        if let Some(memo) = self.get_memo(&key) {
            return Ok(memo);
        }
        let start = self.tokens.get_position();
        // `<` `>`
        if matches!(self.tokens.get_comparison_operator(), Some(ComparisonOperator::LessThan)) {
            self.tokens.next();
            if matches!(self.tokens.get_comparison_operator(), Some(ComparisonOperator::GreaterThan)) {
                self.tokens.next();
                return Ok(MemoResult::from_node(ASTNode::Arguments(Vec::new()), self.tokens.get_position()));
            }
        }
        self.tokens.set_position(start);
        // `<` ( GenericArg `,` )* `>`
        if !matches!(self.tokens.get_comparison_operator(), Some(ComparisonOperator::LessThan)) {
            self.tokens.set_position(start);
            return Err(ParseError::NotMatch);
        }
        self.tokens.next();
        loop
            invariant
                Self::advanced(*old(self), *self),
                self.pos() > old(self).pos(),
            decreases self.rem(),
        {
            let arg_start = self.tokens.get_position();
            if self.parse_generic_arg().is_err() {
                self.tokens.set_position(arg_start);
                break;
            }
            if !matches!(self.tokens.get_operator(), Some(MusubuOperator::Comma)) {
                self.tokens.set_position(arg_start);
                break;
            }
            self.tokens.next();
        }
        if !matches!(self.tokens.get_comparison_operator(), Some(ComparisonOperator::GreaterThan)) {
            self.tokens.set_position(start);
            return Err(ParseError::NotMatch);
        }
        self.tokens.next();
        Ok(MemoResult::from_node(ASTNode::Arguments(Vec::new()), self.tokens.get_position()))
    }

    // GenericArg ::= Type | GenericArgsConst | GenericArgsBinding | GenericArgsBounds
    fn parse_generic_arg(&mut self) -> (res: ParseResult)
        requires
            old(self).wf(),
        ensures
            Self::rule_done(RULE_GENERIC_ARG, *old(self), *final(self), res),
        decreases old(self).rem(), old(self).absent(), 6nat,
    {
        let key = self.make_key(RULE_GENERIC_ARG);
        if let Some(memo) = self.get_memo(&key) {
            return Ok(memo);
        }
        let start = self.tokens.get_position();
        let result = match self.parse_type() {
            Ok(m) => Ok(m),
            Err(_) => {
                self.tokens.set_position(start);
                match self.parse_generic_args_const() {
                    Ok(m) => Ok(m),
                    Err(_) => {
                        self.tokens.set_position(start);
                        match self.parse_generic_args_binding() {
                            Ok(m) => Ok(m),
                            Err(_) => {
                                self.tokens.set_position(start);
                                match self.parse_generic_args_bounds() {
                                    Ok(m) => Ok(m),
                                    Err(_) => {
                                        self.tokens.set_position(start);
                                        Err(ParseError::NotMatch)
                                    },
                                }
                            },
                        }
                    },
                }
            },
        };
        self.make_memo_from_result(key, result)
    }

    // GenericArgsConst ::= BlockExpression | LiteralExpression | SimplePathSegment
    fn parse_generic_args_const(&mut self) -> (res: ParseResult)
        requires
            old(self).wf(),
        ensures
            Self::rule_done(RULE_GENERIC_ARGS_CONST, *old(self), *final(self), res),
        decreases old(self).rem(), old(self).absent(), 2nat,
    {
        let key = self.make_key(RULE_GENERIC_ARGS_CONST);
        if let Some(memo) = self.get_memo(&key) {
            return Ok(memo);
        }
        let start = self.tokens.get_position();
        let result = match self.parse_block_expression() {
            Ok(m) => Ok(m),
            Err(_) => {
                self.tokens.set_position(start);
                match self.parse_literal_expression() {
                    Ok(m) => Ok(m),
                    Err(_) => {
                        self.tokens.set_position(start);
                        match self.parse_simple_path_segment() {
                            Ok(m) => Ok(m),
                            Err(_) => {
                                self.tokens.set_position(start);
                                Err(ParseError::NotMatch)
                            },
                        }
                    },
                }
            },
        };
        self.make_memo_from_result(key, result)
    }

    // GenericArgsBinding ::= IDENTIFIER GenericArgs? `=` Type
    fn parse_generic_args_binding(&mut self) -> (res: ParseResult)
        requires
            old(self).wf(),
        ensures
            Self::rule_done(RULE_GENERIC_ARGS_BINDING, *old(self), *final(self), res),
        decreases old(self).rem(), old(self).absent(), 1nat,
    {
        let key = self.make_key(RULE_GENERIC_ARGS_BINDING);
        if let Some(memo) = self.get_memo(&key) {
            return Ok(memo);
        }
        if self.tokens.get_identifier().is_none() {
            return self.make_memo_from_result(key, Err(ParseError::NotMatch));
        }
        self.tokens.next();
        let position = self.tokens.get_position();
        if self.parse_generic_args().is_err() {
            self.tokens.set_position(position);
        }
        if !matches!(self.tokens.get_assign_operator(), Some(AssignOperator::Assign)) {
            return self.make_memo_from_result(key, Err(ParseError::NotMatch));
        }
        self.tokens.next();
        let result = self.parse_type();
        self.make_memo_from_result(key, result)
    }

    // GenericArgsBounds ::= IDENTIFIER GenericArgs? `:` Type
    fn parse_generic_args_bounds(&mut self) -> (res: ParseResult)
        requires
            old(self).wf(),
        ensures
            Self::rule_done(RULE_GENERIC_ARGS_BOUNDS, *old(self), *final(self), res),
        decreases old(self).rem(), old(self).absent(), 1nat,
    {
        let key = self.make_key(RULE_GENERIC_ARGS_BOUNDS);
        if let Some(memo) = self.get_memo(&key) {
            return Ok(memo);
        }
        if self.tokens.get_identifier().is_none() {
            return self.make_memo_from_result(key, Err(ParseError::NotMatch));
        }
        self.tokens.next();
        let position = self.tokens.get_position();
        if self.parse_generic_args().is_err() {
            self.tokens.set_position(position);
        }
        if !matches!(self.tokens.get_operator(), Some(MusubuOperator::Colon)) {
            return self.make_memo_from_result(key, Err(ParseError::NotMatch));
        }
        self.tokens.next();
        let result = self.parse_type();
        self.make_memo_from_result(key, result)
    }

    // SimplePath ::= `::`? SimplePathSegment ( `::` SimplePathSegment )*
    #[allow(dead_code)]
    fn parse_simple_path(&mut self) -> (res: ParseResult)
        requires
            old(self).wf(),
        ensures
            Self::rule_done(RULE_SIMPLE_PATH, *old(self), *final(self), res),
    {
        let key = self.make_key(RULE_SIMPLE_PATH);
        if let Some(memo) = self.get_memo(&key) {
            return Ok(memo);
        }
        if matches!(self.tokens.get_operator(), Some(MusubuOperator::Path)) {
            self.tokens.next();
        }
        let Ok(first) = node_of(self.parse_simple_path_segment()) else {
            return self.make_memo_from_result(key, Err(ParseError::NotMatch));
        };
        let first = expect_segment(first);
        let mut segments: SpannedVec<PathSegment> = vec![
            Spanned { node: PathSegment { ident: first.node, arguments: Vec::new() }, span: first.span },
        ];
        let mut missing = false;
        loop
            invariant
                Self::advanced(*old(self), *self),
                key.rule == RULE_SIMPLE_PATH,
                key.position == old(self).pos(),
            decreases self.rem(),
        {
            let start = self.tokens.get_position();
            if matches!(self.tokens.get_operator(), Some(MusubuOperator::Path)) {
                self.tokens.next();
            }
            match self.parse_simple_path_segment() {
                Ok(memo) => {
                    if self.tokens.get_position() <= start {
                        // an element that reads no token would repeat forever: stop here
                        break;
                    }
                    match memo.get_node() {
                        Some(node) => {
                            let segment = expect_segment(node);
                            segments.push(
                                Spanned {
                                    node: PathSegment { ident: segment.node, arguments: Vec::new() },
                                    span: segment.span,
                                },
                            );
                        },
                        None => missing = true,
                    }
                },
                Err(_) => {
                    self.tokens.set_position(start);
                    break;
                },
            }
        }
        if missing {
            return self.make_memo_from_result(key, Err(ParseError::UnexpectedAST));
        }
        let span = self.make_span(&key);
        self.make_memo_from_node(key, Path { segments }.make_node(span))
    }

    // SimplePathSegment ::= IDENTIFIER
    fn parse_simple_path_segment(&mut self) -> (res: ParseResult)
        requires
            old(self).wf(),
        ensures
            Self::rule_done(RULE_SIMPLE_PATH_SEGMENT, *old(self), *final(self), res),
        decreases old(self).rem(), old(self).absent(), 1nat,
    {
        let key = self.make_key(RULE_SIMPLE_PATH_SEGMENT);
        if let Some(memo) = self.get_memo(&key) {
            return Ok(memo);
        }
        let Some(ident) = self.tokens.get_identifier() else {
            return self.make_memo_from_result(key, Err(ParseError::NotMatch));
        };
        let ident = String::from_str(ident);
        self.tokens.next();
        let span = self.make_span(&key);
        self.make_memo_from_node(key, ASTNode::Segment(Spanned { node: ident, span }))
    }

    // QualifiedPathInExpression ::= QualifiedPathType (`::` PathExprSegment)+
    fn parse_qualified_path_in_expression(&mut self) -> (res: ParseResult)
        requires
            old(self).wf(),
        ensures
            Self::rule_done(RULE_QUALIFIED_PATH_IN_EXPRESSION, *old(self), *final(self), res),
        decreases old(self).rem(), old(self).absent(), 6nat,
    {
        let key = self.make_key(RULE_QUALIFIED_PATH_IN_EXPRESSION);
        if let Some(memo) = self.get_memo(&key) {
            return Ok(memo);
        }
        if self.parse_type().is_err() {
            return self.make_memo_from_result(key, Err(ParseError::NotMatch));
        }
        let mut segments: SpannedVec<PathSegment> = Vec::new();
        loop
            invariant
                Self::advanced(*old(self), *self),
                key.rule == RULE_QUALIFIED_PATH_IN_EXPRESSION,
                key.position == old(self).pos(),
                old(self).memo_entry(key.rule) is None || old(self).memo_entry(key.rule) == Some(
                    MemoResult::Pending,
                ),
            decreases self.rem(),
        {
            if matches!(self.tokens.get_operator(), Some(MusubuOperator::Path)) {
                self.tokens.next();
            } else {
                break;
            }
            let Ok(seg) = node_of(self.parse_path_expr_segment()) else {
                return self.make_memo_from_result(key, Err(ParseError::UnexpectedAST));
            };
            let ASTNode::PathSegment(segment) = seg else {
                return self.make_memo_from_result(key, Err(ParseError::UnexpectedAST));
            };
            segments.push(segment);
        }
        let span = self.make_span(&key);
        self.make_memo_from_node(key, Path { segments }.make_node(span))
    }

    // QualifiedPathType ::= `<` Type (`as` TypePath)? `>`, read as a type alone
    #[allow(dead_code)]
    fn parse_qualified_path_type(&mut self) -> (res: ParseResult)
        requires
            old(self).wf(),
        ensures
            Self::rule_done(RULE_QUALIFIED_PATH_TYPE, *old(self), *final(self), res),
    {
        let key = self.make_key(RULE_QUALIFIED_PATH_TYPE);
        if let Some(memo) = self.get_memo(&key) {
            return Ok(memo);
        }
        let result = self.parse_type();
        self.make_memo_from_result(key, result)
    }

    // InfiniteLoopExpression ::= `loop` BlockExpression
    fn parse_infinite_loop_expression(&mut self) -> (res: ParseResult)
        requires
            old(self).wf(),
        ensures
            Self::rule_done(RULE_INFINITE_LOOP_EXPRESSION, *old(self), *final(self), res),
        decreases old(self).rem(), old(self).absent(), 1nat,
    {
        let key = self.make_key(RULE_INFINITE_LOOP_EXPRESSION);
        if let Some(memo) = self.get_memo(&key) {
            return Ok(memo);
        }
        if !matches!(self.tokens.get_keyword(), Some(MusubuKeyword::Loop)) {
            return self.make_memo_from_result(key, Err(ParseError::NotMatch));
        }
        self.tokens.next();
        let Ok(result) = self.parse_block_expression() else {
            return self.make_memo_from_result(key, Err(ParseError::NotMatch));
        };
        let Some(node) = result.get_node() else {
            return self.make_memo_from_result(key, Err(ParseError::NotMatch));
        };
        let body = expect_expression(node);
        let span = self.make_span(&key);
        self.make_memo_from_node(key, LoopExpr::Loop { body }.make_node(span))
    }

    // PredicateLoopExpression ::= `while` Expression BlockExpression
    fn parse_predicate_loop_expression(&mut self) -> (res: ParseResult)
        requires
            old(self).wf(),
        ensures
            Self::rule_done(RULE_PREDICATE_LOOP_EXPRESSION, *old(self), *final(self), res),
        decreases old(self).rem(), old(self).absent(), 1nat,
    {
        let key = self.make_key(RULE_PREDICATE_LOOP_EXPRESSION);
        if let Some(memo) = self.get_memo(&key) {
            return Ok(memo);
        }
        if !matches!(self.tokens.get_keyword(), Some(MusubuKeyword::While)) {
            return self.make_memo_from_result(key, Err(ParseError::NotMatch));
        }
        self.tokens.next();
        let Ok(result) = self.parse_expression() else {
            return self.make_memo_from_result(key, Err(ParseError::NotMatch));
        };
        let Some(node) = result.get_node() else {
            return self.make_memo_from_result(key, Err(ParseError::NotMatch));
        };
        let condition = expect_expression(node);
        let Ok(result) = self.parse_block_expression() else {
            return self.make_memo_from_result(key, Err(ParseError::NotMatch));
        };
        let Some(node) = result.get_node() else {
            return self.make_memo_from_result(key, Err(ParseError::NotMatch));
        };
        let body = expect_expression(node);
        let span = self.make_span(&key);
        self.make_memo_from_node(key, LoopExpr::While { body, condition }.make_node(span))
    }

    // IteratorLoopExpression ::= `for` Pattern `in` Expression BlockExpression
    fn parse_iterator_loop_expression(&mut self) -> (res: ParseResult)
        requires
            old(self).wf(),
        ensures
            Self::rule_done(RULE_ITERATOR_LOOP_EXPRESSION, *old(self), *final(self), res),
        decreases old(self).rem(), old(self).absent(), 1nat,
    {
        let key = self.make_key(RULE_ITERATOR_LOOP_EXPRESSION);
        if let Some(memo) = self.get_memo(&key) {
            return Ok(memo);
        }
        if !matches!(self.tokens.get_keyword(), Some(MusubuKeyword::For)) {
            return self.make_memo_from_result(key, Err(ParseError::NotMatch));
        }
        self.tokens.next();
        let Ok(ASTNode::Pattern(pattern)) = node_of(self.parse_pattern()) else {
            return self.make_memo_from_result(key, Err(ParseError::UnexpectedAST));
        };
        if !matches!(self.tokens.get_keyword(), Some(MusubuKeyword::In)) {
            return self.make_memo_from_result(key, Err(ParseError::NotMatch));
        }
        self.tokens.next();
        let Ok(iterator) = expr_of(self.parse_expression()) else {
            return self.make_memo_from_result(key, Err(ParseError::NotMatch));
        };
        let Ok(body) = expr_of(self.parse_block_expression()) else {
            return self.make_memo_from_result(key, Err(ParseError::NotMatch));
        };
        let span = self.make_span(&key);
        self.make_memo_from_node(key, LoopExpr::For { pattern, iterator, body }.make_node(span))
    }

    // Pattern ::= `|`? PatternNoTopAlt ( `|` PatternNoTopAlt )*
    fn parse_pattern(&mut self) -> (res: ParseResult)
        requires
            old(self).wf(),
        ensures
            Self::rule_done(RULE_PATTERN, *old(self), *final(self), res),
        decreases old(self).rem(), old(self).absent(), 4nat,
    {
        let key = self.make_key(RULE_PATTERN);
        if let Some(memo) = self.get_memo(&key) {
            return Ok(memo);
        }
        if matches!(self.tokens.get_binary_operator(), Some(BinaryOperator::Or)) {
            self.tokens.next();
        }
        let Ok(first) = node_of(self.parse_pattern_no_top_alt()) else {
            return self.make_memo_from_result(key, Err(ParseError::NotMatch));
        };
        let first = expect_pattern(first);
        let mut patterns: SpannedVec<Pattern> = Vec::new();
        let mut count: usize = 0;
        let mut missing = false;
        loop
            invariant
                Self::advanced(*old(self), *self),
                key.rule == RULE_PATTERN,
                key.position == old(self).pos(),
                count <= self.pos(),
            decreases self.rem(),
        {
            let start = self.tokens.get_position();
            if !matches!(self.tokens.get_binary_operator(), Some(BinaryOperator::Or)) {
                break;
            }
            self.tokens.next();
            match self.parse_pattern_no_top_alt() {
                Ok(memo) => {
                    count = count + 1;
                    match memo.get_node() {
                        Some(node) => patterns.push(expect_pattern(node)),
                        None => missing = true,
                    }
                },
                Err(_) => {
                    self.tokens.set_position(start);
                    break;
                },
            }
        }
        let pattern = if count == 0 {
            first
        } else {
            if missing {
                return self.make_memo_from_result(key, Err(ParseError::UnexpectedAST));
            }
            let mut all: SpannedVec<Pattern> = vec![first];
            all.append(&mut patterns);
            let span = self.make_span(&key);
            Spanned { node: Pattern::Multiply(all), span }
        };
        self.make_memo_from_node(key, ASTNode::Pattern(pattern))
    }

    // PatternNoTopAlt ::= PatternWithoutRange
    fn parse_pattern_no_top_alt(&mut self) -> (res: ParseResult)
        requires
            old(self).wf(),
        ensures
            Self::rule_done(RULE_PATTERN_NO_TOP_ALT, *old(self), *final(self), res),
            Self::close_paren_here(*old(self)) && Self::group_free(*old(self), RULE_PATTERN_NO_TOP_ALT) ==> res is Err && final(self).pos()
                == old(self).pos() && Self::same_except(*old(self), *final(self), old(self).pos(), RULE_PATTERN_NO_TOP_ALT),
        decreases old(self).rem(), old(self).absent(), 3nat,
    {
        let key = self.make_key(RULE_PATTERN_NO_TOP_ALT);
        if let Some(memo) = self.get_memo(&key) {
            return Ok(memo);
        }
        let result = self.parse_pattern_without_range();
        self.make_memo_from_result(key, result)
    }

    // PatternWithoutRange ::= LiteralPattern | IdentifierPattern
    fn parse_pattern_without_range(&mut self) -> (res: ParseResult)
        requires
            old(self).wf(),
        ensures
            Self::rule_done(RULE_PATTERN_WITHOUT_RANGE, *old(self), *final(self), res),
            Self::close_paren_here(*old(self)) && Self::group_free(*old(self), RULE_PATTERN_WITHOUT_RANGE) ==> res is Err && final(self).pos()
                == old(self).pos() && Self::same_except(*old(self), *final(self), old(self).pos(), RULE_PATTERN_WITHOUT_RANGE),
        decreases old(self).rem(), old(self).absent(), 2nat,
    {
        let ghost s0 = *self;
        let ghost paren = Self::close_paren_here(s0) && Self::group_free(s0, RULE_PATTERN_WITHOUT_RANGE);
        let key = self.make_key(RULE_PATTERN_WITHOUT_RANGE);
        if let Some(memo) = self.get_memo(&key) {
            return Ok(memo);
        }
        let ghost s1 = *self;
        let start = self.tokens.get_position();
        proof {
            if paren {
                Self::lemma_enter_group(s0, s1, s1, RULE_PATTERN_WITHOUT_RANGE, RULE_LITERAL_PATTERN);
            }
        }
        let first = self.parse_literal_pattern();
        let ghost s2 = *self;
        proof {
            if paren {
                Self::lemma_enter_group(s0, s1, s2, RULE_PATTERN_WITHOUT_RANGE, RULE_LITERAL_PATTERN);
                Self::lemma_enter_next(s0, s1, s2, s2, RULE_PATTERN_WITHOUT_RANGE, RULE_LITERAL_PATTERN, RULE_IDENTIFIER_PATTERN);
            }
        }
        let result = match first {
            Ok(m) => Ok(m),
            Err(_) => {
                self.tokens.set_position(start);
                match self.parse_identifier_pattern() {
                    Ok(m) => Ok(m),
                    Err(_) => {
                        self.tokens.set_position(start);
                        Err(ParseError::NotMatch)
                    },
                }
            },
        };
        let ghost s3 = *self;
        let r = self.make_memo_from_result(key, result);
        proof {
            if paren {
                Self::lemma_enter_next(s0, s1, s2, s3, RULE_PATTERN_WITHOUT_RANGE, RULE_LITERAL_PATTERN, RULE_IDENTIFIER_PATTERN);
                Self::lemma_leave_group(s0, s3, *self, RULE_PATTERN_WITHOUT_RANGE);
            }
        }
        r
    }

    // LiteralPattern ::= `true` | `false` | LITERAL
    fn parse_literal_pattern(&mut self) -> (res: ParseResult)
        requires
            old(self).wf(),
        ensures
            Self::rule_done(RULE_LITERAL_PATTERN, *old(self), *final(self), res),
            Self::close_paren_here(*old(self)) && Self::group_free(*old(self), RULE_LITERAL_PATTERN) ==> res is Err && final(self).pos()
                == old(self).pos() && Self::same_except(*old(self), *final(self), old(self).pos(), RULE_LITERAL_PATTERN),
        decreases old(self).rem(), old(self).absent(), 1nat,
    {
        let key = self.make_key(RULE_LITERAL_PATTERN);
        if let Some(memo) = self.get_memo(&key) {
            return Ok(memo);
        }
        if matches!(self.tokens.get_keyword(), Some(MusubuKeyword::True)) {
            self.tokens.next();
            let span = self.make_span(&key);
            return self.make_memo_from_node(key, Pattern::Literal(Literal::Bool(true)).make_node(span));
        }
        if matches!(self.tokens.get_keyword(), Some(MusubuKeyword::False)) {
            self.tokens.next();
            let span = self.make_span(&key);
            return self.make_memo_from_node(key, Pattern::Literal(Literal::Bool(false)).make_node(span));
        }
        if let Some(literal) = self.tokens.get_literal() {
            let literal: MusubuLiteral = literal.clone();
            let exponent = self.exponent_value(self.tokens.get_position());
            self.tokens.next();
            return match literal.to_literal(exponent) {
                Ok(literal) => {
                    let span = self.make_span(&key);
                    self.make_memo_from_node(key, Pattern::Literal(literal).make_node(span))
                },
                Err(err) => self.make_memo_from_result(key, Err(err)),
            };
        }
        Err(ParseError::NotMatch)
    }

    // IdentifierPattern ::= `ref`? `mut`? IDENTIFIER (`@` PatternNoTopAlt )?
    // A subpattern is read and dropped.
    fn parse_identifier_pattern(&mut self) -> (res: ParseResult)
        requires
            old(self).wf(),
        ensures
            Self::rule_done(RULE_IDENTIFIER_PATTERN, *old(self), *final(self), res),
            Self::close_paren_here(*old(self)) && Self::group_free(*old(self), RULE_IDENTIFIER_PATTERN) ==> res is Err && final(self).pos()
                == old(self).pos() && Self::same_except(*old(self), *final(self), old(self).pos(), RULE_IDENTIFIER_PATTERN),
        decreases old(self).rem(), old(self).absent(), 1nat,
    {
        let key = self.make_key(RULE_IDENTIFIER_PATTERN);
        if let Some(memo) = self.get_memo(&key) {
            return Ok(memo);
        }
        let is_ref = matches!(self.tokens.get_keyword(), Some(MusubuKeyword::Ref));
        if is_ref {
            self.tokens.next();
        }
        let is_mut = matches!(self.tokens.get_keyword(), Some(MusubuKeyword::Mut));
        if is_mut {
            self.tokens.next();
        }
        let Some(name) = self.tokens.get_identifier() else {
            return self.make_memo_from_result(key, Err(ParseError::NotMatch));
        };
        let name = String::from_str(name);
        self.tokens.next();
        if matches!(self.tokens.get_operator(), Some(MusubuOperator::At)) {
            self.tokens.next();
            let _subpattern = node_of(self.parse_pattern_no_top_alt());
        }
        let span = self.make_span(&key);
        self.make_memo_from_node(
            key,
            Pattern::Identifier { ident: name, reference: is_ref, mutable: is_mut }.make_node(span),
        )
    }

    /// Pratt parsing of an expression whose operators bind at least as tightly as `min_bp`;
    /// nothing is recorded.
    fn pratt_parse(&mut self, min_bp: u16) -> (res: ParseResult)
        requires
            old(self).wf(),
        ensures
            Self::rule_done(RULE_PRATT, *old(self), *final(self), res),
            res matches Ok(m) ==> m is Match,
            Self::lone_literal(*old(self)) ==> (res matches Ok(MemoResult::Match { .. })) && final(self).pos()
                == old(self).pos() + 1,
        decreases old(self).rem(), old(self).absent(), 11nat,
    {
        let key = self.make_key(RULE_PRATT);
        let ghost lone = Self::lone_literal(*old(self));
        self.bp_stack.push(min_bp);
        let Ok(mut lhs) = self.expr_or_prefix_op() else {
            return Err(ParseError::NotMatch);
        };
        loop
            invariant
                Self::advanced(*old(self), *self),
                key.position == old(self).pos(),
                node_variant(lhs) == 1,
                lone == Self::lone_literal(*old(self)),
                lone ==> self.pos() == old(self).pos() + 1,
            decreases self.rem(),
        {
            let Some(op) = self.tokens.get_operator() else {
                break;
            };
            let op: MusubuOperator = *op;
            // postfix operators
            if let Some(left_bp) = op.get_postfix_binding_power() {
                if left_bp < min_bp {
                    break;
                }
                self.tokens.next();
                lhs = if let Some(pair) = op.counterpart_of() {
                    let rhs = match self.postfix_pair_inside(&op) {
                        Ok(rhs) => rhs,
                        Err(e) => return Err(e),
                    };
                    if !is_closing(self.tokens.get_operator(), &pair) {
                        return Err(ParseError::NotMatch);
                    }
                    self.tokens.next();
                    let span = self.make_span(&key);
                    match make_ast_from_operator(span, &op, Some(lhs), None, Some(rhs)) {
                        Ok(node) => node,
                        Err(e) => return Err(e),
                    }
                } else {
                    lhs
                };
                continue;
            }
            // infix operators
            if let Some((left_bp, right_bp)) = op.get_infix_binding_power() {
                if left_bp < min_bp {
                    break;
                }
                self.tokens.next();
                let Some(rhs) = (match self.pratt_parse(right_bp) {
                    Ok(memo) => memo,
                    Err(e) => return Err(e),
                }).get_node() else {
                    return Err(ParseError::UnexpectedAST);
                };
                let span = self.make_span(&key);
                lhs = match make_ast_from_operator(span, &op, Some(lhs), None, Some(rhs)) {
                    Ok(node) => node,
                    Err(e) => return Err(e),
                };
                continue;
            }
            break;
        }
        self.bp_stack.pop();
        Ok(MemoResult::from_node(lhs, self.tokens.get_position()))
    }

    /// An expression, a bracketed expression, or a prefix operator and its operand (the operator
    /// itself is dropped).
    fn expr_or_prefix_op(&mut self) -> (res: Result<ASTNode, ParseError>)
        requires
            old(self).wf(),
        ensures
            Self::advanced(*old(self), *final(self)),
            res matches Ok(n) ==> node_variant(n) == 1,
            Self::lone_literal(*old(self)) ==> res is Ok && final(self).pos() == old(self).pos() + 1,
        decreases old(self).rem(), old(self).absent(), 10nat,
    {
        let Some(op) = self.tokens.get_operator() else {
            return match self.parse_expression() {
                Ok(memo) => match memo.get_node() {
                    Some(node) => Ok(node),
                    None => Err(ParseError::NotMatch),
                },
                Err(e) => Err(e),
            };
        };
        let op: MusubuOperator = *op;
        if let Some(pair) = op.counterpart_of() {
            self.tokens.next();
            let lhs = match self.pratt_parse(0) {
                Ok(memo) => memo.get_node(),
                Err(e) => return Err(e),
            };
            if is_closing(self.tokens.get_operator(), &pair) {
                return Err(ParseError::NotMatch);
            }
            self.tokens.next();
            return match lhs {
                Some(node) => Ok(node),
                None => Err(ParseError::NotMatch),
            };
        }
        let Some(r_bp) = op.get_prefix_binding_power() else {
            return Err(ParseError::UnexpectedOperator);
        };
        self.tokens.next();
        let Some(lhs) = (match self.pratt_parse(r_bp) {
            Ok(memo) => memo,
            Err(e) => return Err(e),
        }).get_node() else {
            return Err(ParseError::UnexpectedOperator);
        };
        Ok(lhs)
    }

    /// What stands inside a bracket after an expression: call parameters after `(`, an
    /// expression otherwise.
    fn postfix_pair_inside(&mut self, left_op: &MusubuOperator) -> (res: Result<ASTNode, ParseError>)
        requires
            old(self).wf(),
        ensures
            Self::advanced(*old(self), *final(self)),
            res matches Ok(n) ==> node_variant(n) == (if *left_op is LeftParenthesis {
                14int
            } else {
                1int
            }),
            !(*left_op is LeftParenthesis) && Self::lone_literal(*old(self)) ==> res is Ok && final(self).pos()
                == old(self).pos() + 1,
        decreases old(self).rem(), old(self).absent(), 12nat,
    {
        match left_op {
            MusubuOperator::LeftParenthesis => match self.parse_call_params() {
                Ok(memo) => match memo.get_node() {
                    Some(node) => Ok(node),
                    None => Err(ParseError::NotMatch),
                },
                Err(e) => Err(e),
            },
            _ => match self.pratt_parse(0) {
                Ok(memo) => match memo.get_node() {
                    Some(node) => Ok(node),
                    None => Err(ParseError::NotMatch),
                },
                Err(e) => Err(e),
            },
        }
    }
}

} // verus!

verus! {

/// Parses one item from the raw tokens: turns them into the parser's tokens, which must
/// succeed, and parses an item from the first of them. `exponent_values` holds, at the index of
/// each parser token, the value of the token's exponent literal, computed by the caller in
/// floating point.
pub fn parse<'a>(tokens: &Tokens<'a>, exponent_values: Vec<Result<String, ParseError>>) -> (res: Result<
    Vec<ASTNode>,
    ParseError,
>)
    requires
        match spec_token_stream(tokens_view(tokens@)) {
            Ok(ts) => exponent_values@.len() == ts.len() && (2 * ts.len() + 1) * 64 <= usize::MAX,
            Err(_) => false,
        },
    ensures
        res matches Ok(items) ==> items@.len() == 1 && node_variant(items@[0]) == 0,
        res matches Ok(items) ==> (spec_token_stream(tokens_view(tokens@)) matches Ok(ts) && ts.len() > 1 && ts[1].kind
            == MusubuTokenKindView::Identifier(item_name(items@[0]))),
        res is Ok ==> match spec_token_stream(tokens_view(tokens@)) {
            Ok(ts) => ts.len() > 0 && (ts[0].kind == MusubuTokenKindView::Keyword(MusubuKeyword::Fn)
                || ts[0].kind == MusubuTokenKindView::Keyword(MusubuKeyword::Struct) || ts[0].kind
                == MusubuTokenKindView::Keyword(MusubuKeyword::Enum)),
            Err(_) => false,
        },
        match spec_token_stream(tokens_view(tokens@)) {
            Ok(ts) => ts.len() >= 5 && ts[0].kind == MusubuTokenKindView::Keyword(MusubuKeyword::Fn)
                && ts[1].kind is Identifier && ts[2].kind == MusubuTokenKindView::Operator(MusubuOperator::LeftParenthesis)
                && ts[3].kind == MusubuTokenKindView::Operator(MusubuOperator::RightParenthesis)
                && ts[4].kind == MusubuTokenKindView::Operator(MusubuOperator::Semicolon) ==> (res matches Ok(items)
                && declaration_node(items@[0])),
            Err(_) => true,
        },
        match spec_token_stream(tokens_view(tokens@)) {
            Ok(ts) => ts.len() >= 4 && ts[0].kind == MusubuTokenKindView::Keyword(MusubuKeyword::Struct)
                && ts[1].kind is Identifier && ts[2].kind == MusubuTokenKindView::Operator(MusubuOperator::LeftBrace)
                && ts[3].kind == MusubuTokenKindView::Operator(MusubuOperator::RightBrace) ==> res is Ok,
            Err(_) => true,
        },
{
    let stream = match tokenize(tokens) {
        Ok(stream) => stream,
        Err(_) => vstd::pervasive::unreached(),
    };
    let mut parser = PackratAndPrattParser::new(stream, exponent_values);
    let ghost toks = parser.spec_tokens();
    proof {
        if toks.len() >= 4 {
            assert(musubu_tokens_view(toks)[0] == toks[0]@);
            assert(musubu_tokens_view(toks)[1] == toks[1]@);
            assert(musubu_tokens_view(toks)[2] == toks[2]@);
            assert(musubu_tokens_view(toks)[3] == toks[3]@);
        }
        if toks.len() >= 5 {
            assert(musubu_tokens_view(toks)[4] == toks[4]@);
        }
    }
    let result = parser.parse();
    proof {
        if result is Ok {
            assert(musubu_tokens_view(toks)[0] == toks[0]@);
            assert(musubu_tokens_view(toks)[1] == toks[1]@);
        }
    }
    match result {
        Ok(node) => Ok(vec![node]),
        Err(e) => Err(e),
    }
}

} // verus!
