use crate::primitive::{BinaryOperator, ComparisonOperator, PrimitiveType};
use crate::span::{Span, Spanned};
use vstd::prelude::*;

verus! {

pub type SpannedVec<T> = Vec<Spanned<T>>;

pub type SpannedBox<T> = Spanned<Box<T>>;

/// A node of the syntax tree that the parser produces.
#[derive(Debug, PartialEq, Eq, Hash)]
pub enum ASTNode {
    Item { visibility: Visibility, item: Spanned<Item> },
    Expression(SpannedBox<Expression>),
    Type(Spanned<TypeKind>),
    TypeAlias(Spanned<TypeAlias>),
    Loop(Spanned<LoopExpr>),
    Visibility(Spanned<Visibility>),
    Statement(Spanned<Statement>),
    Statements(SpannedVec<Statement>),
    Pattern(Spanned<Pattern>),
    StructField(Spanned<StructField>),
    StructFields(SpannedVec<StructField>),
    EnumItem(Spanned<EnumItem>),
    EnumItems(SpannedVec<EnumItem>),
    CallParam(SpannedBox<Expression>),
    CallParams(Vec<SpannedBox<Expression>>),
    FunctionParameter(Spanned<FunctionParam>),
    FunctionParameters(SpannedVec<FunctionParam>),
    PathSegment(Spanned<PathSegment>),
    Field(Spanned<String>),
    Path(Spanned<Path>),
    Segment(Spanned<String>),
    Arguments(SpannedVec<TypeKind>),
}

#[derive(Debug, PartialEq, Eq, Hash)]
pub enum Visibility {
    Private,
    Path(Path),
    Public,
}

#[derive(Debug, PartialEq, Eq, Hash)]
pub enum Item {
    Function {
        name: String,
        params: SpannedVec<FunctionParam>,
        return_type: Option<Spanned<TypeKind>>,
        body: Option<SpannedBox<Expression>>,
    },
    Struct { name: String, fields: SpannedVec<StructField> },
    Enumeration { name: String, items: SpannedVec<EnumItem> },
    Union { name: String, fields: SpannedVec<StructField> },
}

impl Item {
    /// The item as a node of the tree, with the given visibility and span.
    pub fn make_item(self, visibility: Visibility, span: Span) -> (node: ASTNode)
        ensures
            node == (ASTNode::Item { visibility, item: Spanned { node: self, span } }),
    {
        ASTNode::Item { visibility, item: Spanned { node: self, span } }
    }
}

#[derive(Debug, PartialEq, Eq, Hash)]
pub enum EnumItem {
    StructItem { visibility: Visibility, name: String, fields: SpannedVec<StructField> },
    TupleItem { visibility: Visibility, name: String },
}

#[derive(Debug, PartialEq, Eq, Hash)]
pub struct StructField {
    pub visibility: Visibility,
    pub name: String,
    pub field_type: Spanned<TypeKind>,
}

#[derive(Debug, PartialEq, Eq, Hash)]
pub enum Expression {
    Literal(Spanned<Literal>),
    Path(Spanned<Path>),
    Binary { operator: BinaryOperator, left: SpannedBox<Expression>, right: SpannedBox<Expression> },
    Assign { operator: AssignOperator, left: SpannedBox<Expression>, right: SpannedBox<Expression> },
    Comparison {
        operator: ComparisonOperator,
        left: SpannedBox<Expression>,
        right: SpannedBox<Expression>,
    },
    Logical {
        operator: LogicalOperator,
        left: SpannedBox<Expression>,
        right: SpannedBox<Expression>,
    },
    Array { elements: ArrayElements },
    Call { function: SpannedBox<Expression>, arguments: Vec<SpannedBox<Expression>> },
    FieldAccess { parent: SpannedBox<Expression>, field_name: String },
    MethodCall(MethodCall),
    Index { parent: SpannedBox<Expression>, index: SpannedBox<Expression> },
    Block(SpannedVec<Statement>),
    Loop(Spanned<LoopExpr>),
    If {
        condition: SpannedBox<Expression>,
        then_body: SpannedBox<Expression>,
        else_body: Option<SpannedBox<Expression>>,
    },
    Continue { label: Option<String> },
    Break { label: Option<String>, expression: Option<SpannedBox<Expression>> },
    Return(Option<SpannedBox<Expression>>),
}

#[derive(Debug, PartialEq, Eq, Hash)]
pub enum LoopExpr {
    While { condition: SpannedBox<Expression>, body: SpannedBox<Expression> },
    For { pattern: Spanned<Pattern>, iterator: SpannedBox<Expression>, body: SpannedBox<Expression> },
    Loop { body: SpannedBox<Expression> },
}

#[derive(Debug, PartialEq, Eq, Hash)]
pub enum Statement {
    Semicolon,
    Expression(SpannedBox<Expression>),
    Let {
        name: Spanned<Pattern>,
        variable_type: Option<Spanned<TypeKind>>,
        label: Option<String>,
        initializer: Option<SpannedBox<Expression>>,
    },
    Item(Spanned<Item>),
}

#[derive(Debug, PartialEq, Eq, Hash)]
pub struct TypeAlias {
    pub name: String,
    pub target: TypeKind,
}

#[derive(Debug, PartialEq, Eq, Hash)]
pub enum TypeKind {
    /// Every type finally becomes one of these.
    Primitive(PrimitiveType),
    /// `hoge::Fuga`, `Vec<T>`, `int`.
    PathType(SpannedBox<Path>),
    /// `fn(i32) -> bool`.
    Function { params: SpannedVec<TypeKind>, return_type: SpannedBox<TypeKind> },
}

impl TypeKind {
    /// The type named by the single path segment `name`.
    pub fn make_single_type(name: String, span: Span) -> (t: Self)
        ensures
            t matches TypeKind::PathType(p) && p.span == span && p.node.segments@.len() == 1
                && p.node.segments@[0].span == span && p.node.segments@[0].node.ident@
                == name@ && p.node.segments@[0].node.arguments@.len() == 0,
    {
        TypeKind::PathType(Spanned { node: Box::new(Path::make(name, span)), span })
    }
}

#[derive(Debug, PartialEq, Eq, Hash)]
pub struct FunctionParam {
    pub pattern: Option<Spanned<Pattern>>,
    pub param_type: Spanned<TypeKind>,
}

#[derive(Debug, PartialEq, Eq, Hash)]
pub enum ArrayElements {
    List(SpannedVec<Expression>),
    Repeat { value: SpannedBox<Expression>, count: SpannedBox<Expression> },
}

#[derive(Debug, PartialEq, Eq, Hash)]
pub struct MethodCall {
    pub name: Path,
    pub params: SpannedVec<Expression>,
}

#[derive(Debug, PartialEq, Eq, Hash)]
pub enum Literal {
    Float { value: String, value_type: TypeKind },
    Integer { value: String, value_type: TypeKind },
    Char { value: String, value_type: TypeKind },
    UnicodeChar { value: String, value_type: TypeKind },
    String { value: String, value_type: TypeKind },
    Bool(bool),
}

#[derive(Debug, Clone, Copy, PartialEq, Eq, Hash)]
pub enum AssignOperator {
    Assign,
    AddAssign,
    SubAssign,
    MulAssign,
    DivAssign,
    ModAssign,
    AndAssign,
    OrAssign,
    XorAssign,
    LeftShiftAssign,
    RightShiftAssign,
}

#[derive(Debug, Clone, Copy, PartialEq, Eq, Hash)]
pub enum LogicalOperator {
    Not,  // !
    And,  // &&
    Or,  // ||
}

#[derive(Debug, PartialEq, Eq, Hash)]
pub enum Pattern {
    Empty,
    Multiply(SpannedVec<Pattern>),
    Literal(Literal),
    Identifier { ident: String, mutable: bool, reference: bool },
}

#[derive(Debug, PartialEq, Eq, Hash)]
pub struct Path {
    pub segments: SpannedVec<PathSegment>,
}

impl Path {
    /// The path of one segment named `name`, without generic arguments.
    pub fn make(name: String, span: Span) -> (p: Self)
        ensures
            p.segments@.len() == 1,
            p.segments@[0].span == span,
            p.segments@[0].node.ident@ == name@,
            p.segments@[0].node.arguments@.len() == 0,
    {
        Self { segments: vec![Spanned { node: PathSegment::make(name), span }] }
    }

    /// Appends a segment at the end of the path.
    pub fn add_path(&mut self, path: Spanned<PathSegment>)
        ensures
            final(self).segments@ == old(self).segments@.push(path),
    {
        self.segments.push(path);
    }

    /// The name of the last segment, or the empty string for an empty path.
    pub fn last_ident(&self) -> (s: &str)
        ensures
            self.segments@.len() == 0 ==> s@ == ""@,
            self.segments@.len() > 0 ==> s@ == self.segments@.last().node.ident@,
    {
        if self.segments.len() == 0 {
            return "";
        }
        self.segments[self.segments.len() - 1].node.ident.as_str()
    }
}

#[derive(Debug, PartialEq, Eq, Hash)]
pub struct PathSegment {
    pub ident: String,
    pub arguments: SpannedVec<TypeKind>,
}

impl PathSegment {
    fn make(name: String) -> (s: Self)
        ensures
            s.ident@ == name@,
            s.arguments@.len() == 0,
    {
        Self { ident: name, arguments: Vec::new() }
    }
}



/// The variant of a node, as a number in the order of the declaration.
pub open spec fn node_variant(n: ASTNode) -> int {
    match n {
        ASTNode::Item { .. } => 0,
        ASTNode::Expression(..) => 1,
        ASTNode::Type(..) => 2,
        ASTNode::TypeAlias(..) => 3,
        ASTNode::Loop(..) => 4,
        ASTNode::Visibility(..) => 5,
        ASTNode::Statement(..) => 6,
        ASTNode::Statements(..) => 7,
        ASTNode::Pattern(..) => 8,
        ASTNode::StructField(..) => 9,
        ASTNode::StructFields(..) => 10,
        ASTNode::EnumItem(..) => 11,
        ASTNode::EnumItems(..) => 12,
        ASTNode::CallParam(..) => 13,
        ASTNode::CallParams(..) => 14,
        ASTNode::FunctionParameter(..) => 15,
        ASTNode::FunctionParameters(..) => 16,
        ASTNode::PathSegment(..) => 17,
        ASTNode::Field(..) => 18,
        ASTNode::Path(..) => 19,
        ASTNode::Segment(..) => 20,
        ASTNode::Arguments(..) => 21,
    }
}

/// Two nodes alike in every part: the same variant, equal spans, texts and operators, and alike
/// children, element by element.
pub open spec fn same_node(a: ASTNode, b: ASTNode) -> bool
    decreases a,
{
    match (a, b) {
        (ASTNode::Item { visibility: v1, item: i1 }, ASTNode::Item { visibility: v2, item: i2 }) => same_visibility(v1, v2)
            && i1.span == i2.span && same_item(i1.node, i2.node),
        (ASTNode::Expression(e1), ASTNode::Expression(e2)) => same_boxed_expr(e1, e2),
        (ASTNode::Type(t1), ASTNode::Type(t2)) => t1.span == t2.span && same_type(t1.node, t2.node),
        (ASTNode::TypeAlias(t1), ASTNode::TypeAlias(t2)) => t1.span == t2.span && same_type_alias(t1.node, t2.node),
        (ASTNode::Loop(l1), ASTNode::Loop(l2)) => l1.span == l2.span && same_loop(l1.node, l2.node),
        (ASTNode::Visibility(v1), ASTNode::Visibility(v2)) => v1.span == v2.span && same_visibility(v1.node, v2.node),
        (ASTNode::Statement(s1), ASTNode::Statement(s2)) => s1.span == s2.span && same_statement(s1.node, s2.node),
        (ASTNode::Statements(s1), ASTNode::Statements(s2)) => same_statements(s1, s2),
        (ASTNode::Pattern(p1), ASTNode::Pattern(p2)) => p1.span == p2.span && same_pattern(p1.node, p2.node),
        (ASTNode::StructField(f1), ASTNode::StructField(f2)) => f1.span == f2.span && same_struct_field(f1.node, f2.node),
        (ASTNode::StructFields(f1), ASTNode::StructFields(f2)) => same_struct_fields(f1, f2),
        (ASTNode::EnumItem(i1), ASTNode::EnumItem(i2)) => i1.span == i2.span && same_enum_item(i1.node, i2.node),
        (ASTNode::EnumItems(i1), ASTNode::EnumItems(i2)) => same_enum_items(i1, i2),
        (ASTNode::CallParam(e1), ASTNode::CallParam(e2)) => same_boxed_expr(e1, e2),
        (ASTNode::CallParams(e1), ASTNode::CallParams(e2)) => same_boxed_exprs(e1, e2),
        (ASTNode::FunctionParameter(p1), ASTNode::FunctionParameter(p2)) => p1.span == p2.span && same_param(p1.node, p2.node),
        (ASTNode::FunctionParameters(p1), ASTNode::FunctionParameters(p2)) => same_params(p1, p2),
        (ASTNode::PathSegment(p1), ASTNode::PathSegment(p2)) => p1.span == p2.span && same_segment(p1.node, p2.node),
        (ASTNode::Field(f1), ASTNode::Field(f2)) => f1 == f2,
        (ASTNode::Path(p1), ASTNode::Path(p2)) => p1.span == p2.span && same_path(p1.node, p2.node),
        (ASTNode::Segment(s1), ASTNode::Segment(s2)) => s1 == s2,
        (ASTNode::Arguments(a1), ASTNode::Arguments(a2)) => same_types(a1, a2),
        _ => false,
    }
}

pub open spec fn same_visibility(a: Visibility, b: Visibility) -> bool
    decreases a,
{
    match (a, b) {
        (Visibility::Private, Visibility::Private) => true,
        (Visibility::Path(p1), Visibility::Path(p2)) => same_path(p1, p2),
        (Visibility::Public, Visibility::Public) => true,
        _ => false,
    }
}

pub open spec fn same_item(a: Item, b: Item) -> bool
    decreases a,
{
    match (a, b) {
        (
            Item::Function { name: n1, params: p1, return_type: r1, body: b1 },
            Item::Function { name: n2, params: p2, return_type: r2, body: b2 },
        ) => n1 == n2 && same_params(p1, p2) && match (r1, r2) {
            (Some(t1), Some(t2)) => t1.span == t2.span && same_type(t1.node, t2.node),
            (None, None) => true,
            _ => false,
        } && match (b1, b2) {
            (Some(e1), Some(e2)) => same_boxed_expr(e1, e2),
            (None, None) => true,
            _ => false,
        },
        (Item::Struct { name: n1, fields: f1 }, Item::Struct { name: n2, fields: f2 }) => n1 == n2
            && same_struct_fields(f1, f2),
        (Item::Enumeration { name: n1, items: i1 }, Item::Enumeration { name: n2, items: i2 }) => n1 == n2
            && same_enum_items(i1, i2),
        (Item::Union { name: n1, fields: f1 }, Item::Union { name: n2, fields: f2 }) => n1 == n2
            && same_struct_fields(f1, f2),
        _ => false,
    }
}

pub open spec fn same_enum_item(a: EnumItem, b: EnumItem) -> bool
    decreases a,
{
    match (a, b) {
        (
            EnumItem::StructItem { visibility: v1, name: n1, fields: f1 },
            EnumItem::StructItem { visibility: v2, name: n2, fields: f2 },
        ) => same_visibility(v1, v2) && n1 == n2 && same_struct_fields(f1, f2),
        (EnumItem::TupleItem { visibility: v1, name: n1 }, EnumItem::TupleItem { visibility: v2, name: n2 }) => same_visibility(
            v1,
            v2,
        ) && n1 == n2,
        _ => false,
    }
}

pub open spec fn same_enum_items(a: SpannedVec<EnumItem>, b: SpannedVec<EnumItem>) -> bool
    decreases a,
{
    a@.len() == b@.len() && forall|i: int|
        0 <= i < a@.len() ==> a@[i].span == b@[i].span && #[trigger] same_enum_item(a@[i].node, b@[i].node)
}

pub open spec fn same_struct_field(a: StructField, b: StructField) -> bool
    decreases a,
{
    same_visibility(a.visibility, b.visibility) && a.name == b.name && a.field_type.span
        == b.field_type.span && same_type(a.field_type.node, b.field_type.node)
}

pub open spec fn same_struct_fields(a: SpannedVec<StructField>, b: SpannedVec<StructField>) -> bool
    decreases a,
{
    a@.len() == b@.len() && forall|i: int|
        0 <= i < a@.len() ==> a@[i].span == b@[i].span && #[trigger] same_struct_field(a@[i].node, b@[i].node)
}

pub open spec fn same_boxed_expr(a: SpannedBox<Expression>, b: SpannedBox<Expression>) -> bool
    decreases a,
{
    a.span == b.span && same_expr(*a.node, *b.node)
}

pub open spec fn same_boxed_exprs(a: Vec<SpannedBox<Expression>>, b: Vec<SpannedBox<Expression>>) -> bool
    decreases a,
{
    a@.len() == b@.len() && forall|i: int| 0 <= i < a@.len() ==> #[trigger] same_boxed_expr(a@[i], b@[i])
}

pub open spec fn same_exprs(a: SpannedVec<Expression>, b: SpannedVec<Expression>) -> bool
    decreases a,
{
    a@.len() == b@.len() && forall|i: int|
        0 <= i < a@.len() ==> a@[i].span == b@[i].span && #[trigger] same_expr(a@[i].node, b@[i].node)
}

pub open spec fn same_opt_boxed_expr(a: Option<SpannedBox<Expression>>, b: Option<SpannedBox<Expression>>) -> bool
    decreases a,
{
    match (a, b) {
        (Some(e1), Some(e2)) => same_boxed_expr(e1, e2),
        (None, None) => true,
        _ => false,
    }
}

pub open spec fn same_expr(a: Expression, b: Expression) -> bool
    decreases a,
{
    match (a, b) {
        (Expression::Literal(l1), Expression::Literal(l2)) => l1.span == l2.span && same_literal(l1.node, l2.node),
        (Expression::Path(p1), Expression::Path(p2)) => p1.span == p2.span && same_path(p1.node, p2.node),
        (
            Expression::Binary { operator: o1, left: l1, right: r1 },
            Expression::Binary { operator: o2, left: l2, right: r2 },
        ) => o1 == o2 && same_boxed_expr(l1, l2) && same_boxed_expr(r1, r2),
        (
            Expression::Assign { operator: o1, left: l1, right: r1 },
            Expression::Assign { operator: o2, left: l2, right: r2 },
        ) => o1 == o2 && same_boxed_expr(l1, l2) && same_boxed_expr(r1, r2),
        (
            Expression::Comparison { operator: o1, left: l1, right: r1 },
            Expression::Comparison { operator: o2, left: l2, right: r2 },
        ) => o1 == o2 && same_boxed_expr(l1, l2) && same_boxed_expr(r1, r2),
        (
            Expression::Logical { operator: o1, left: l1, right: r1 },
            Expression::Logical { operator: o2, left: l2, right: r2 },
        ) => o1 == o2 && same_boxed_expr(l1, l2) && same_boxed_expr(r1, r2),
        (Expression::Array { elements: e1 }, Expression::Array { elements: e2 }) => same_array(e1, e2),
        (
            Expression::Call { function: f1, arguments: a1 },
            Expression::Call { function: f2, arguments: a2 },
        ) => same_boxed_expr(f1, f2) && same_boxed_exprs(a1, a2),
        (
            Expression::FieldAccess { parent: p1, field_name: n1 },
            Expression::FieldAccess { parent: p2, field_name: n2 },
        ) => same_boxed_expr(p1, p2) && n1 == n2,
        (Expression::MethodCall(m1), Expression::MethodCall(m2)) => same_method(m1, m2),
        (Expression::Index { parent: p1, index: i1 }, Expression::Index { parent: p2, index: i2 }) => same_boxed_expr(
            p1,
            p2,
        ) && same_boxed_expr(i1, i2),
        (Expression::Block(s1), Expression::Block(s2)) => same_statements(s1, s2),
        (Expression::Loop(l1), Expression::Loop(l2)) => l1.span == l2.span && same_loop(l1.node, l2.node),
        (
            Expression::If { condition: c1, then_body: t1, else_body: e1 },
            Expression::If { condition: c2, then_body: t2, else_body: e2 },
        ) => same_boxed_expr(c1, c2) && same_boxed_expr(t1, t2) && same_opt_boxed_expr(e1, e2),
        (Expression::Continue { label: l1 }, Expression::Continue { label: l2 }) => l1 == l2,
        (
            Expression::Break { label: l1, expression: e1 },
            Expression::Break { label: l2, expression: e2 },
        ) => l1 == l2 && same_opt_boxed_expr(e1, e2),
        (Expression::Return(e1), Expression::Return(e2)) => same_opt_boxed_expr(e1, e2),
        _ => false,
    }
}

pub open spec fn same_loop(a: LoopExpr, b: LoopExpr) -> bool
    decreases a,
{
    match (a, b) {
        (LoopExpr::While { condition: c1, body: b1 }, LoopExpr::While { condition: c2, body: b2 }) => same_boxed_expr(
            c1,
            c2,
        ) && same_boxed_expr(b1, b2),
        (
            LoopExpr::For { pattern: p1, iterator: i1, body: b1 },
            LoopExpr::For { pattern: p2, iterator: i2, body: b2 },
        ) => p1.span == p2.span && same_pattern(p1.node, p2.node) && same_boxed_expr(i1, i2)
            && same_boxed_expr(b1, b2),
        (LoopExpr::Loop { body: b1 }, LoopExpr::Loop { body: b2 }) => same_boxed_expr(b1, b2),
        _ => false,
    }
}

pub open spec fn same_statement(a: Statement, b: Statement) -> bool
    decreases a,
{
    match (a, b) {
        (Statement::Semicolon, Statement::Semicolon) => true,
        (Statement::Expression(e1), Statement::Expression(e2)) => same_boxed_expr(e1, e2),
        (
            Statement::Let { name: n1, variable_type: t1, label: l1, initializer: i1 },
            Statement::Let { name: n2, variable_type: t2, label: l2, initializer: i2 },
        ) => n1.span == n2.span && same_pattern(n1.node, n2.node) && match (t1, t2) {
            (Some(x), Some(y)) => x.span == y.span && same_type(x.node, y.node),
            (None, None) => true,
            _ => false,
        } && l1 == l2 && same_opt_boxed_expr(i1, i2),
        (Statement::Item(i1), Statement::Item(i2)) => i1.span == i2.span && same_item(i1.node, i2.node),
        _ => false,
    }
}

pub open spec fn same_statements(a: SpannedVec<Statement>, b: SpannedVec<Statement>) -> bool
    decreases a,
{
    a@.len() == b@.len() && forall|i: int|
        0 <= i < a@.len() ==> a@[i].span == b@[i].span && #[trigger] same_statement(a@[i].node, b@[i].node)
}

pub open spec fn same_type_alias(a: TypeAlias, b: TypeAlias) -> bool
    decreases a,
{
    a.name == b.name && same_type(a.target, b.target)
}

pub open spec fn same_type(a: TypeKind, b: TypeKind) -> bool
    decreases a,
{
    match (a, b) {
        (TypeKind::Primitive(p1), TypeKind::Primitive(p2)) => p1@ == p2@,
        (TypeKind::PathType(p1), TypeKind::PathType(p2)) => p1.span == p2.span && same_path(*p1.node, *p2.node),
        (
            TypeKind::Function { params: p1, return_type: r1 },
            TypeKind::Function { params: p2, return_type: r2 },
        ) => same_types(p1, p2) && r1.span == r2.span && same_type(*r1.node, *r2.node),
        _ => false,
    }
}

pub open spec fn same_types(a: SpannedVec<TypeKind>, b: SpannedVec<TypeKind>) -> bool
    decreases a,
{
    a@.len() == b@.len() && forall|i: int|
        0 <= i < a@.len() ==> a@[i].span == b@[i].span && #[trigger] same_type(a@[i].node, b@[i].node)
}

pub open spec fn same_param(a: FunctionParam, b: FunctionParam) -> bool
    decreases a,
{
    (match (a.pattern, b.pattern) {
        (Some(p1), Some(p2)) => p1.span == p2.span && same_pattern(p1.node, p2.node),
        (None, None) => true,
        _ => false,
    }) && a.param_type.span == b.param_type.span && same_type(a.param_type.node, b.param_type.node)
}

pub open spec fn same_params(a: SpannedVec<FunctionParam>, b: SpannedVec<FunctionParam>) -> bool
    decreases a,
{
    a@.len() == b@.len() && forall|i: int|
        0 <= i < a@.len() ==> a@[i].span == b@[i].span && #[trigger] same_param(a@[i].node, b@[i].node)
}

pub open spec fn same_array(a: ArrayElements, b: ArrayElements) -> bool
    decreases a,
{
    match (a, b) {
        (ArrayElements::List(l1), ArrayElements::List(l2)) => same_exprs(l1, l2),
        (
            ArrayElements::Repeat { value: v1, count: c1 },
            ArrayElements::Repeat { value: v2, count: c2 },
        ) => same_boxed_expr(v1, v2) && same_boxed_expr(c1, c2),
        _ => false,
    }
}

pub open spec fn same_method(a: MethodCall, b: MethodCall) -> bool
    decreases a,
{
    same_path(a.name, b.name) && same_exprs(a.params, b.params)
}

pub open spec fn same_literal(a: Literal, b: Literal) -> bool
    decreases a,
{
    match (a, b) {
        (Literal::Float { value: v1, value_type: t1 }, Literal::Float { value: v2, value_type: t2 }) => v1 == v2
            && same_type(t1, t2),
        (Literal::Integer { value: v1, value_type: t1 }, Literal::Integer { value: v2, value_type: t2 }) => v1
            == v2 && same_type(t1, t2),
        (Literal::Char { value: v1, value_type: t1 }, Literal::Char { value: v2, value_type: t2 }) => v1 == v2
            && same_type(t1, t2),
        (
            Literal::UnicodeChar { value: v1, value_type: t1 },
            Literal::UnicodeChar { value: v2, value_type: t2 },
        ) => v1 == v2 && same_type(t1, t2),
        (Literal::String { value: v1, value_type: t1 }, Literal::String { value: v2, value_type: t2 }) => v1
            == v2 && same_type(t1, t2),
        (Literal::Bool(b1), Literal::Bool(b2)) => b1 == b2,
        _ => false,
    }
}

pub open spec fn same_pattern(a: Pattern, b: Pattern) -> bool
    decreases a,
{
    match (a, b) {
        (Pattern::Empty, Pattern::Empty) => true,
        (Pattern::Multiply(p1), Pattern::Multiply(p2)) => same_patterns(p1, p2),
        (Pattern::Literal(l1), Pattern::Literal(l2)) => same_literal(l1, l2),
        (
            Pattern::Identifier { ident: i1, mutable: m1, reference: r1 },
            Pattern::Identifier { ident: i2, mutable: m2, reference: r2 },
        ) => i1 == i2 && m1 == m2 && r1 == r2,
        _ => false,
    }
}

pub open spec fn same_patterns(a: SpannedVec<Pattern>, b: SpannedVec<Pattern>) -> bool
    decreases a,
{
    a@.len() == b@.len() && forall|i: int|
        0 <= i < a@.len() ==> a@[i].span == b@[i].span && #[trigger] same_pattern(a@[i].node, b@[i].node)
}

pub open spec fn same_path(a: Path, b: Path) -> bool
    decreases a,
{
    same_segments(a.segments, b.segments)
}

pub open spec fn same_segment(a: PathSegment, b: PathSegment) -> bool
    decreases a,
{
    a.ident == b.ident && same_types(a.arguments, b.arguments)
}

pub open spec fn same_segments(a: SpannedVec<PathSegment>, b: SpannedVec<PathSegment>) -> bool
    decreases a,
{
    a@.len() == b@.len() && forall|i: int|
        0 <= i < a@.len() ==> a@[i].span == b@[i].span && #[trigger] same_segment(a@[i].node, b@[i].node)
}

fn copy_string(s: &String) -> (r: String)
    ensures
        r == *s,
{
    s.clone()
}

fn copy_label(l: &Option<String>) -> (r: Option<String>)
    ensures
        r == *l,
{
    match l {
        Some(s) => Some(copy_string(s)),
        None => None,
    }
}

impl ASTNode {
    /// A copy of the node and of everything below it.
    pub fn deep_clone(&self) -> (r: Self)
        ensures
            node_variant(r) == node_variant(*self),
            same_node(*self, r),
        decreases self,
    {
        match self {
            ASTNode::Item { visibility, item } => ASTNode::Item {
                visibility: visibility.deep_clone(),
                item: Spanned { node: item.node.deep_clone(), span: item.span },
            },
            ASTNode::Expression(e) => ASTNode::Expression(Expression::clone_boxed(e)),
            ASTNode::Type(t) => ASTNode::Type(Spanned { node: t.node.deep_clone(), span: t.span }),
            ASTNode::TypeAlias(a) => ASTNode::TypeAlias(Spanned { node: a.node.deep_clone(), span: a.span }),
            ASTNode::Loop(l) => ASTNode::Loop(Spanned { node: l.node.deep_clone(), span: l.span }),
            ASTNode::Visibility(v) => ASTNode::Visibility(Spanned { node: v.node.deep_clone(), span: v.span }),
            ASTNode::Statement(s) => ASTNode::Statement(Spanned { node: s.node.deep_clone(), span: s.span }),
            ASTNode::Statements(v) => ASTNode::Statements(Statement::clone_all(v)),
            ASTNode::Pattern(p) => ASTNode::Pattern(Spanned { node: p.node.deep_clone(), span: p.span }),
            ASTNode::StructField(f) => ASTNode::StructField(Spanned { node: f.node.deep_clone(), span: f.span }),
            ASTNode::StructFields(v) => ASTNode::StructFields(StructField::clone_all(v)),
            ASTNode::EnumItem(i) => ASTNode::EnumItem(Spanned { node: i.node.deep_clone(), span: i.span }),
            ASTNode::EnumItems(v) => ASTNode::EnumItems(EnumItem::clone_all(v)),
            ASTNode::CallParam(e) => ASTNode::CallParam(Expression::clone_boxed(e)),
            ASTNode::CallParams(v) => ASTNode::CallParams(Expression::clone_all_boxed(v)),
            ASTNode::FunctionParameter(p) => ASTNode::FunctionParameter(
                Spanned { node: p.node.deep_clone(), span: p.span },
            ),
            ASTNode::FunctionParameters(v) => ASTNode::FunctionParameters(FunctionParam::clone_all(v)),
            ASTNode::PathSegment(p) => ASTNode::PathSegment(Spanned { node: p.node.deep_clone(), span: p.span }),
            ASTNode::Field(f) => ASTNode::Field(Spanned { node: copy_string(&f.node), span: f.span }),
            ASTNode::Path(p) => ASTNode::Path(Spanned { node: p.node.deep_clone(), span: p.span }),
            ASTNode::Segment(s) => ASTNode::Segment(Spanned { node: copy_string(&s.node), span: s.span }),
            ASTNode::Arguments(v) => ASTNode::Arguments(TypeKind::clone_all(v)),
        }
    }
}

impl Visibility {
    /// A copy of the visibility.
    pub fn deep_clone(&self) -> (r: Self)
        ensures
            same_visibility(*self, r),
        decreases self,
    {
        match self {
            Visibility::Private => Visibility::Private,
            Visibility::Path(p) => Visibility::Path(p.deep_clone()),
            Visibility::Public => Visibility::Public,
        }
    }
}

impl Item {
    /// A copy of the item and of everything below it.
    pub fn deep_clone(&self) -> (r: Self)
        ensures
            same_item(*self, r),
        decreases self,
    {
        match self {
            Item::Function { name, params, return_type, body } => Item::Function {
                name: copy_string(name),
                params: FunctionParam::clone_all(params),
                return_type: match return_type {
                    Some(t) => Some(Spanned { node: t.node.deep_clone(), span: t.span }),
                    None => None,
                },
                body: match body {
                    Some(b) => Some(Expression::clone_boxed(b)),
                    None => None,
                },
            },
            Item::Struct { name, fields } => Item::Struct {
                name: copy_string(name),
                fields: StructField::clone_all(fields),
            },
            Item::Enumeration { name, items } => Item::Enumeration {
                name: copy_string(name),
                items: EnumItem::clone_all(items),
            },
            Item::Union { name, fields } => Item::Union {
                name: copy_string(name),
                fields: StructField::clone_all(fields),
            },
        }
    }
}

impl EnumItem {
    /// A copy of the enumeration item.
    pub fn deep_clone(&self) -> (r: Self)
        ensures
            same_enum_item(*self, r),
        decreases self,
    {
        match self {
            EnumItem::StructItem { visibility, name, fields } => EnumItem::StructItem {
                visibility: visibility.deep_clone(),
                name: copy_string(name),
                fields: StructField::clone_all(fields),
            },
            EnumItem::TupleItem { visibility, name } => EnumItem::TupleItem {
                visibility: visibility.deep_clone(),
                name: copy_string(name),
            },
        }
    }

    fn clone_all(v: &SpannedVec<EnumItem>) -> (r: SpannedVec<EnumItem>)
        ensures
            same_enum_items(*v, r),
        decreases v,
    {
        let mut r: SpannedVec<EnumItem> = Vec::new();
        let mut i: usize = 0;
        while i < v.len()
            invariant
                i <= v@.len(),
                r@.len() == i,
                forall|j: int|
                    0 <= j < i ==> #[trigger] r@[j].span == v@[j].span && same_enum_item(v@[j].node, r@[j].node),
            decreases v@.len() - i,
        {
            assert(forall|j: int| 0 <= j < i ==> r@[j].span == v@[j].span);
            assert(forall|j: int| 0 <= j < i ==> same_enum_item(v@[j].node, r@[j].node));
            let c = v[i].node.deep_clone();
            let ghost before = r@;
            r.push(Spanned { node: c, span: v[i].span });
            proof {
                assert forall|j: int| 0 <= j < i + 1 implies r@[j].span == v@[j].span && #[trigger] same_enum_item(
                    v@[j].node,
                    r@[j].node,
                ) by {
                    if j < i {
                        assert(r@[j] == before[j]);
                        assert(same_enum_item(v@[j].node, before[j].node));
                    }
                }
            }
            i = i + 1;
        }
        assert(forall|j: int| 0 <= j < v@.len() ==> v@[j].span == r@[j].span);
        assert(forall|j: int| 0 <= j < v@.len() ==> same_enum_item(v@[j].node, r@[j].node));
        r
    }
}

impl StructField {
    /// A copy of the field.
    pub fn deep_clone(&self) -> (r: Self)
        ensures
            same_struct_field(*self, r),
        decreases self,
    {
        StructField {
            visibility: self.visibility.deep_clone(),
            name: copy_string(&self.name),
            field_type: Spanned { node: self.field_type.node.deep_clone(), span: self.field_type.span },
        }
    }

    fn clone_all(v: &SpannedVec<StructField>) -> (r: SpannedVec<StructField>)
        ensures
            same_struct_fields(*v, r),
        decreases v,
    {
        let mut r: SpannedVec<StructField> = Vec::new();
        let mut i: usize = 0;
        while i < v.len()
            invariant
                i <= v@.len(),
                r@.len() == i,
                forall|j: int|
                    0 <= j < i ==> #[trigger] r@[j].span == v@[j].span && same_struct_field(v@[j].node, r@[j].node),
            decreases v@.len() - i,
        {
            assert(forall|j: int| 0 <= j < i ==> r@[j].span == v@[j].span);
            assert(forall|j: int| 0 <= j < i ==> same_struct_field(v@[j].node, r@[j].node));
            let c = v[i].node.deep_clone();
            let ghost before = r@;
            r.push(Spanned { node: c, span: v[i].span });
            proof {
                assert forall|j: int| 0 <= j < i + 1 implies r@[j].span == v@[j].span && #[trigger] same_struct_field(
                    v@[j].node,
                    r@[j].node,
                ) by {
                    if j < i {
                        assert(r@[j] == before[j]);
                        assert(same_struct_field(v@[j].node, before[j].node));
                    }
                }
            }
            i = i + 1;
        }
        assert(forall|j: int| 0 <= j < v@.len() ==> v@[j].span == r@[j].span);
        assert(forall|j: int| 0 <= j < v@.len() ==> same_struct_field(v@[j].node, r@[j].node));
        r
    }
}

impl Expression {
    /// A copy of the expression and of everything below it.
    pub fn deep_clone(&self) -> (r: Self)
        ensures
            same_expr(*self, r),
        decreases self,
    {
        match self {
            Expression::Literal(l) => Expression::Literal(Spanned { node: l.node.deep_clone(), span: l.span }),
            Expression::Path(p) => Expression::Path(Spanned { node: p.node.deep_clone(), span: p.span }),
            Expression::Binary { operator, left, right } => Expression::Binary {
                operator: *operator,
                left: Expression::clone_boxed(left),
                right: Expression::clone_boxed(right),
            },
            Expression::Assign { operator, left, right } => Expression::Assign {
                operator: *operator,
                left: Expression::clone_boxed(left),
                right: Expression::clone_boxed(right),
            },
            Expression::Comparison { operator, left, right } => Expression::Comparison {
                operator: *operator,
                left: Expression::clone_boxed(left),
                right: Expression::clone_boxed(right),
            },
            Expression::Logical { operator, left, right } => Expression::Logical {
                operator: *operator,
                left: Expression::clone_boxed(left),
                right: Expression::clone_boxed(right),
            },
            Expression::Array { elements } => Expression::Array { elements: elements.deep_clone() },
            Expression::Call { function, arguments } => Expression::Call {
                function: Expression::clone_boxed(function),
                arguments: Expression::clone_all_boxed(arguments),
            },
            Expression::FieldAccess { parent, field_name } => Expression::FieldAccess {
                parent: Expression::clone_boxed(parent),
                field_name: copy_string(field_name),
            },
            Expression::MethodCall(m) => Expression::MethodCall(m.deep_clone()),
            Expression::Index { parent, index } => Expression::Index {
                parent: Expression::clone_boxed(parent),
                index: Expression::clone_boxed(index),
            },
            Expression::Block(v) => Expression::Block(Statement::clone_all(v)),
            Expression::Loop(l) => Expression::Loop(Spanned { node: l.node.deep_clone(), span: l.span }),
            Expression::If { condition, then_body, else_body } => Expression::If {
                condition: Expression::clone_boxed(condition),
                then_body: Expression::clone_boxed(then_body),
                else_body: match else_body {
                    Some(e) => Some(Expression::clone_boxed(e)),
                    None => None,
                },
            },
            Expression::Continue { label } => Expression::Continue { label: copy_label(label) },
            Expression::Break { label, expression } => Expression::Break {
                label: copy_label(label),
                expression: match expression {
                    Some(e) => Some(Expression::clone_boxed(e)),
                    None => None,
                },
            },
            Expression::Return(e) => Expression::Return(
                match e {
                    Some(e) => Some(Expression::clone_boxed(e)),
                    None => None,
                },
            ),
        }
    }

    fn clone_boxed(e: &SpannedBox<Expression>) -> (r: SpannedBox<Expression>)
        ensures
            same_boxed_expr(*e, r),
        decreases e,
    {
        Spanned { node: Box::new((*e.node).deep_clone()), span: e.span }
    }

    fn clone_all_boxed(v: &Vec<SpannedBox<Expression>>) -> (r: Vec<SpannedBox<Expression>>)
        ensures
            same_boxed_exprs(*v, r),
        decreases v,
    {
        let mut r: Vec<SpannedBox<Expression>> = Vec::new();
        let mut i: usize = 0;
        while i < v.len()
            invariant
                i <= v@.len(),
                r@.len() == i,
                forall|j: int| 0 <= j < i ==> same_boxed_expr(v@[j], #[trigger] r@[j]),
            decreases v@.len() - i,
        {
            assert(forall|j: int| 0 <= j < i ==> same_boxed_expr(v@[j], r@[j]));
            let c = Expression::clone_boxed(&v[i]);
            let ghost before = r@;
            r.push(c);
            proof {
                assert forall|j: int| 0 <= j < i + 1 implies same_boxed_expr(v@[j], #[trigger] r@[j]) by {
                    if j < i {
                        assert(r@[j] == before[j]);
                        assert(same_boxed_expr(v@[j], before[j]));
                    }
                }
            }
            i = i + 1;
        }
        assert(forall|j: int| 0 <= j < v@.len() ==> same_boxed_expr(v@[j], r@[j]));
        r
    }

    fn clone_all(v: &SpannedVec<Expression>) -> (r: SpannedVec<Expression>)
        ensures
            same_exprs(*v, r),
        decreases v,
    {
        let mut r: SpannedVec<Expression> = Vec::new();
        let mut i: usize = 0;
        while i < v.len()
            invariant
                i <= v@.len(),
                r@.len() == i,
                forall|j: int|
                    0 <= j < i ==> #[trigger] r@[j].span == v@[j].span && same_expr(v@[j].node, r@[j].node),
            decreases v@.len() - i,
        {
            assert(forall|j: int| 0 <= j < i ==> r@[j].span == v@[j].span);
            assert(forall|j: int| 0 <= j < i ==> same_expr(v@[j].node, r@[j].node));
            let c = v[i].node.deep_clone();
            let ghost before = r@;
            r.push(Spanned { node: c, span: v[i].span });
            proof {
                assert forall|j: int| 0 <= j < i + 1 implies r@[j].span == v@[j].span && #[trigger] same_expr(
                    v@[j].node,
                    r@[j].node,
                ) by {
                    if j < i {
                        assert(r@[j] == before[j]);
                        assert(same_expr(v@[j].node, before[j].node));
                    }
                }
            }
            i = i + 1;
        }
        assert(forall|j: int| 0 <= j < v@.len() ==> v@[j].span == r@[j].span);
        assert(forall|j: int| 0 <= j < v@.len() ==> same_expr(v@[j].node, r@[j].node));
        r
    }
}

impl LoopExpr {
    /// A copy of the loop.
    pub fn deep_clone(&self) -> (r: Self)
        ensures
            same_loop(*self, r),
        decreases self,
    {
        match self {
            LoopExpr::While { condition, body } => LoopExpr::While {
                condition: Expression::clone_boxed(condition),
                body: Expression::clone_boxed(body),
            },
            LoopExpr::For { pattern, iterator, body } => LoopExpr::For {
                pattern: Spanned { node: pattern.node.deep_clone(), span: pattern.span },
                iterator: Expression::clone_boxed(iterator),
                body: Expression::clone_boxed(body),
            },
            LoopExpr::Loop { body } => LoopExpr::Loop { body: Expression::clone_boxed(body) },
        }
    }
}

impl Statement {
    /// A copy of the statement.
    pub fn deep_clone(&self) -> (r: Self)
        ensures
            same_statement(*self, r),
        decreases self,
    {
        match self {
            Statement::Semicolon => Statement::Semicolon,
            Statement::Expression(e) => Statement::Expression(Expression::clone_boxed(e)),
            Statement::Let { name, variable_type, label, initializer } => Statement::Let {
                name: Spanned { node: name.node.deep_clone(), span: name.span },
                variable_type: match variable_type {
                    Some(t) => Some(Spanned { node: t.node.deep_clone(), span: t.span }),
                    None => None,
                },
                label: copy_label(label),
                initializer: match initializer {
                    Some(e) => Some(Expression::clone_boxed(e)),
                    None => None,
                },
            },
            Statement::Item(i) => Statement::Item(Spanned { node: i.node.deep_clone(), span: i.span }),
        }
    }

    fn clone_all(v: &SpannedVec<Statement>) -> (r: SpannedVec<Statement>)
        ensures
            same_statements(*v, r),
        decreases v,
    {
        let mut r: SpannedVec<Statement> = Vec::new();
        let mut i: usize = 0;
        while i < v.len()
            invariant
                i <= v@.len(),
                r@.len() == i,
                forall|j: int|
                    0 <= j < i ==> #[trigger] r@[j].span == v@[j].span && same_statement(v@[j].node, r@[j].node),
            decreases v@.len() - i,
        {
            assert(forall|j: int| 0 <= j < i ==> r@[j].span == v@[j].span);
            assert(forall|j: int| 0 <= j < i ==> same_statement(v@[j].node, r@[j].node));
            let c = v[i].node.deep_clone();
            let ghost before = r@;
            r.push(Spanned { node: c, span: v[i].span });
            proof {
                assert forall|j: int| 0 <= j < i + 1 implies r@[j].span == v@[j].span && #[trigger] same_statement(
                    v@[j].node,
                    r@[j].node,
                ) by {
                    if j < i {
                        assert(r@[j] == before[j]);
                        assert(same_statement(v@[j].node, before[j].node));
                    }
                }
            }
            i = i + 1;
        }
        assert(forall|j: int| 0 <= j < v@.len() ==> v@[j].span == r@[j].span);
        assert(forall|j: int| 0 <= j < v@.len() ==> same_statement(v@[j].node, r@[j].node));
        r
    }
}

impl TypeAlias {
    /// A copy of the alias.
    pub fn deep_clone(&self) -> (r: Self)
        ensures
            same_type_alias(*self, r),
        decreases self,
    {
        TypeAlias { name: copy_string(&self.name), target: self.target.deep_clone() }
    }
}

impl TypeKind {
    /// A copy of the type and of everything below it.
    pub fn deep_clone(&self) -> (r: Self)
        ensures
            same_type(*self, r),
        decreases self,
    {
        match self {
            TypeKind::Primitive(p) => TypeKind::Primitive(p.deep_clone()),
            TypeKind::PathType(p) => TypeKind::PathType(
                Spanned { node: Box::new((*p.node).deep_clone()), span: p.span },
            ),
            TypeKind::Function { params, return_type } => TypeKind::Function {
                params: TypeKind::clone_all(params),
                return_type: Spanned {
                    node: Box::new((*return_type.node).deep_clone()),
                    span: return_type.span,
                },
            },
        }
    }

    fn clone_all(v: &SpannedVec<TypeKind>) -> (r: SpannedVec<TypeKind>)
        ensures
            same_types(*v, r),
        decreases v,
    {
        let mut r: SpannedVec<TypeKind> = Vec::new();
        let mut i: usize = 0;
        while i < v.len()
            invariant
                i <= v@.len(),
                r@.len() == i,
                forall|j: int|
                    0 <= j < i ==> #[trigger] r@[j].span == v@[j].span && same_type(v@[j].node, r@[j].node),
            decreases v@.len() - i,
        {
            assert(forall|j: int| 0 <= j < i ==> r@[j].span == v@[j].span);
            assert(forall|j: int| 0 <= j < i ==> same_type(v@[j].node, r@[j].node));
            let c = v[i].node.deep_clone();
            let ghost before = r@;
            r.push(Spanned { node: c, span: v[i].span });
            proof {
                assert forall|j: int| 0 <= j < i + 1 implies r@[j].span == v@[j].span && #[trigger] same_type(
                    v@[j].node,
                    r@[j].node,
                ) by {
                    if j < i {
                        assert(r@[j] == before[j]);
                        assert(same_type(v@[j].node, before[j].node));
                    }
                }
            }
            i = i + 1;
        }
        assert(forall|j: int| 0 <= j < v@.len() ==> v@[j].span == r@[j].span);
        assert(forall|j: int| 0 <= j < v@.len() ==> same_type(v@[j].node, r@[j].node));
        r
    }
}

impl FunctionParam {
    /// A copy of the parameter.
    pub fn deep_clone(&self) -> (r: Self)
        ensures
            same_param(*self, r),
        decreases self,
    {
        FunctionParam {
            pattern: match &self.pattern {
                Some(p) => Some(Spanned { node: p.node.deep_clone(), span: p.span }),
                None => None,
            },
            param_type: Spanned { node: self.param_type.node.deep_clone(), span: self.param_type.span },
        }
    }

    fn clone_all(v: &SpannedVec<FunctionParam>) -> (r: SpannedVec<FunctionParam>)
        ensures
            same_params(*v, r),
        decreases v,
    {
        let mut r: SpannedVec<FunctionParam> = Vec::new();
        let mut i: usize = 0;
        while i < v.len()
            invariant
                i <= v@.len(),
                r@.len() == i,
                forall|j: int|
                    0 <= j < i ==> #[trigger] r@[j].span == v@[j].span && same_param(v@[j].node, r@[j].node),
            decreases v@.len() - i,
        {
            assert(forall|j: int| 0 <= j < i ==> r@[j].span == v@[j].span);
            assert(forall|j: int| 0 <= j < i ==> same_param(v@[j].node, r@[j].node));
            let c = v[i].node.deep_clone();
            let ghost before = r@;
            r.push(Spanned { node: c, span: v[i].span });
            proof {
                assert forall|j: int| 0 <= j < i + 1 implies r@[j].span == v@[j].span && #[trigger] same_param(
                    v@[j].node,
                    r@[j].node,
                ) by {
                    if j < i {
                        assert(r@[j] == before[j]);
                        assert(same_param(v@[j].node, before[j].node));
                    }
                }
            }
            i = i + 1;
        }
        assert(forall|j: int| 0 <= j < v@.len() ==> v@[j].span == r@[j].span);
        assert(forall|j: int| 0 <= j < v@.len() ==> same_param(v@[j].node, r@[j].node));
        r
    }
}

impl ArrayElements {
    /// A copy of the elements.
    pub fn deep_clone(&self) -> (r: Self)
        ensures
            same_array(*self, r),
        decreases self,
    {
        match self {
            ArrayElements::List(v) => ArrayElements::List(Expression::clone_all(v)),
            ArrayElements::Repeat { value, count } => ArrayElements::Repeat {
                value: Expression::clone_boxed(value),
                count: Expression::clone_boxed(count),
            },
        }
    }
}

impl MethodCall {
    /// A copy of the call.
    pub fn deep_clone(&self) -> (r: Self)
        ensures
            same_method(*self, r),
        decreases self,
    {
        MethodCall { name: self.name.deep_clone(), params: Expression::clone_all(&self.params) }
    }
}

impl Literal {
    /// A copy of the literal.
    pub fn deep_clone(&self) -> (r: Self)
        ensures
            same_literal(*self, r),
        decreases self,
    {
        match self {
            Literal::Float { value, value_type } => Literal::Float {
                value: copy_string(value),
                value_type: value_type.deep_clone(),
            },
            Literal::Integer { value, value_type } => Literal::Integer {
                value: copy_string(value),
                value_type: value_type.deep_clone(),
            },
            Literal::Char { value, value_type } => Literal::Char {
                value: copy_string(value),
                value_type: value_type.deep_clone(),
            },
            Literal::UnicodeChar { value, value_type } => Literal::UnicodeChar {
                value: copy_string(value),
                value_type: value_type.deep_clone(),
            },
            Literal::String { value, value_type } => Literal::String {
                value: copy_string(value),
                value_type: value_type.deep_clone(),
            },
            Literal::Bool(b) => Literal::Bool(*b),
        }
    }
}

impl Pattern {
    /// A copy of the pattern.
    pub fn deep_clone(&self) -> (r: Self)
        ensures
            same_pattern(*self, r),
        decreases self,
    {
        match self {
            Pattern::Empty => Pattern::Empty,
            Pattern::Multiply(v) => Pattern::Multiply(Pattern::clone_all(v)),
            Pattern::Literal(l) => Pattern::Literal(l.deep_clone()),
            Pattern::Identifier { ident, mutable, reference } => Pattern::Identifier {
                ident: copy_string(ident),
                mutable: *mutable,
                reference: *reference,
            },
        }
    }

    fn clone_all(v: &SpannedVec<Pattern>) -> (r: SpannedVec<Pattern>)
        ensures
            same_patterns(*v, r),
        decreases v,
    {
        let mut r: SpannedVec<Pattern> = Vec::new();
        let mut i: usize = 0;
        while i < v.len()
            invariant
                i <= v@.len(),
                r@.len() == i,
                forall|j: int|
                    0 <= j < i ==> #[trigger] r@[j].span == v@[j].span && same_pattern(v@[j].node, r@[j].node),
            decreases v@.len() - i,
        {
            assert(forall|j: int| 0 <= j < i ==> r@[j].span == v@[j].span);
            assert(forall|j: int| 0 <= j < i ==> same_pattern(v@[j].node, r@[j].node));
            let c = v[i].node.deep_clone();
            let ghost before = r@;
            r.push(Spanned { node: c, span: v[i].span });
            proof {
                assert forall|j: int| 0 <= j < i + 1 implies r@[j].span == v@[j].span && #[trigger] same_pattern(
                    v@[j].node,
                    r@[j].node,
                ) by {
                    if j < i {
                        assert(r@[j] == before[j]);
                        assert(same_pattern(v@[j].node, before[j].node));
                    }
                }
            }
            i = i + 1;
        }
        assert(forall|j: int| 0 <= j < v@.len() ==> v@[j].span == r@[j].span);
        assert(forall|j: int| 0 <= j < v@.len() ==> same_pattern(v@[j].node, r@[j].node));
        r
    }
}

impl Path {
    /// A copy of the path.
    pub fn deep_clone(&self) -> (r: Self)
        ensures
            same_path(*self, r),
        decreases self,
    {
        Path { segments: PathSegment::clone_all(&self.segments) }
    }
}

impl PathSegment {
    /// A copy of the segment.
    pub fn deep_clone(&self) -> (r: Self)
        ensures
            same_segment(*self, r),
        decreases self,
    {
        PathSegment { ident: copy_string(&self.ident), arguments: TypeKind::clone_all(&self.arguments) }
    }

    fn clone_all(v: &SpannedVec<PathSegment>) -> (r: SpannedVec<PathSegment>)
        ensures
            same_segments(*v, r),
        decreases v,
    {
        let mut r: SpannedVec<PathSegment> = Vec::new();
        let mut i: usize = 0;
        while i < v.len()
            invariant
                i <= v@.len(),
                r@.len() == i,
                forall|j: int|
                    0 <= j < i ==> #[trigger] r@[j].span == v@[j].span && same_segment(v@[j].node, r@[j].node),
            decreases v@.len() - i,
        {
            assert(forall|j: int| 0 <= j < i ==> r@[j].span == v@[j].span);
            assert(forall|j: int| 0 <= j < i ==> same_segment(v@[j].node, r@[j].node));
            let c = v[i].node.deep_clone();
            let ghost before = r@;
            r.push(Spanned { node: c, span: v[i].span });
            proof {
                assert forall|j: int| 0 <= j < i + 1 implies r@[j].span == v@[j].span && #[trigger] same_segment(
                    v@[j].node,
                    r@[j].node,
                ) by {
                    if j < i {
                        assert(r@[j] == before[j]);
                        assert(same_segment(v@[j].node, before[j].node));
                    }
                }
            }
            i = i + 1;
        }
        assert(forall|j: int| 0 <= j < v@.len() ==> v@[j].span == r@[j].span);
        assert(forall|j: int| 0 <= j < v@.len() ==> same_segment(v@[j].node, r@[j].node));
        r
    }
}

/// Something that becomes a node of the syntax tree once its span is known.
pub trait NodeMaker {
    fn make_node(self, span: Span) -> ASTNode;
}

impl NodeMaker for Item {
    fn make_node(self, span: Span) -> (node: ASTNode)
        ensures
            node == (ASTNode::Item { visibility: Visibility::Private, item: Spanned { node: self, span } }),
    {
        ASTNode::Item { visibility: Visibility::Private, item: Spanned { node: self, span } }
    }
}

impl NodeMaker for EnumItem {
    fn make_node(self, span: Span) -> (node: ASTNode)
        ensures
            node == (ASTNode::EnumItem(Spanned { node: self, span })),
    {
        ASTNode::EnumItem(Spanned { node: self, span })
    }
}

impl NodeMaker for StructField {
    fn make_node(self, span: Span) -> (node: ASTNode)
        ensures
            node == (ASTNode::StructField(Spanned { node: self, span })),
    {
        ASTNode::StructField(Spanned { node: self, span })
    }
}

impl NodeMaker for Expression {
    fn make_node(self, span: Span) -> (node: ASTNode)
        ensures
            node == (ASTNode::Expression(Spanned { node: Box::new(self), span })),
    {
        ASTNode::Expression(Spanned { node: Box::new(self), span })
    }
}

impl NodeMaker for LoopExpr {
    fn make_node(self, span: Span) -> (node: ASTNode)
        ensures
            node == (ASTNode::Loop(Spanned { node: self, span })),
    {
        ASTNode::Loop(Spanned { node: self, span })
    }
}

impl NodeMaker for Statement {
    fn make_node(self, span: Span) -> (node: ASTNode)
        ensures
            node == (ASTNode::Statement(Spanned { node: self, span })),
    {
        ASTNode::Statement(Spanned { node: self, span })
    }
}

impl NodeMaker for TypeKind {
    fn make_node(self, span: Span) -> (node: ASTNode)
        ensures
            node == (ASTNode::Type(Spanned { node: self, span })),
    {
        ASTNode::Type(Spanned { node: self, span })
    }
}

impl NodeMaker for FunctionParam {
    fn make_node(self, span: Span) -> (node: ASTNode)
        ensures
            node == (ASTNode::FunctionParameter(Spanned { node: self, span })),
    {
        ASTNode::FunctionParameter(Spanned { node: self, span })
    }
}

impl NodeMaker for Literal {
    fn make_node(self, span: Span) -> (node: ASTNode)
        ensures
            node == (ASTNode::Expression(Spanned { node: Box::new(Expression::Literal(Spanned { node: self, span })), span })),
    {
        ASTNode::Expression(Spanned { node: Box::new(Expression::Literal(Spanned { node: self, span })), span })
    }
}

impl NodeMaker for Pattern {
    fn make_node(self, span: Span) -> (node: ASTNode)
        ensures
            node == (ASTNode::Pattern(Spanned { node: self, span })),
    {
        ASTNode::Pattern(Spanned { node: self, span })
    }
}

impl NodeMaker for Path {
    fn make_node(self, span: Span) -> (node: ASTNode)
        ensures
            node == (ASTNode::Path(Spanned { node: self, span })),
    {
        ASTNode::Path(Spanned { node: self, span })
    }
}

impl NodeMaker for PathSegment {
    fn make_node(self, span: Span) -> (node: ASTNode)
        ensures
            node == (ASTNode::PathSegment(Spanned { node: self, span })),
    {
        ASTNode::PathSegment(Spanned { node: self, span })
    }
}

} // verus!
