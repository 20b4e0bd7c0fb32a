use musubu::ast::{ASTNode, Expression, Item, Literal, LoopExpr, Pattern, Statement, TypeKind};
use musubu::lexer::Tokens;
use musubu::parser::errors::ParseError;
use musubu::parser::lexer::tokenize;
use musubu::parser::packrat::{parse, rule_name, PackratAndPrattParser, RULE_ITEM};
use musubu::parser::token::{FloatLiteral, MusubuLiteral, MusubuTokenKind};
use musubu::primitive::{BinaryOperator, ComparisonOperator};

/// One value per parser token; none of these inputs holds an exponent literal.
fn no_exponents(tokens: &Tokens) -> Vec<Result<String, ParseError>> {
    let stream = tokenize(tokens).unwrap();
    let mut values = Vec::new();
    let mut i = 0;
    while stream.get_from_index(i).is_some() {
        values.push(Ok(String::new()));
        i += 1;
    }
    values
}

fn parse_source(src: &str) -> Result<Vec<ASTNode>, ParseError> {
    let tokens = musubu::lexer::tokenize(src).unwrap();
    let values = no_exponents(&tokens);
    parse(&tokens, values)
}

fn parsed_item(src: &str) -> Item {
    let mut items = parse_source(src).unwrap();
    assert_eq!(items.len(), 1);
    match items.remove(0) {
        ASTNode::Item { item, .. } => item.node,
        other => panic!("not an item: {other:?}"),
    }
}

fn function_body(item: Item) -> Vec<Statement> {
    match item {
        Item::Function { body: Some(body), .. } => match *body.node {
            Expression::Block(statements) => statements.into_iter().map(|s| s.node).collect(),
            other => panic!("not a block: {other:?}"),
        },
        other => panic!("not a function with a body: {other:?}"),
    }
}

#[test]
fn parses_empty_function() {
    let item = parsed_item("fn main() {}");
    match item {
        Item::Function { name, params, return_type, body } => {
            assert_eq!(name, "main");
            assert!(params.is_empty());
            assert!(return_type.is_none());
            assert!(matches!(body.map(|b| *b.node), Some(Expression::Block(s)) if s.is_empty()));
        }
        other => panic!("not a function: {other:?}"),
    }
}

#[test]
fn parses_function_parameters_and_return_type() {
    let item = parsed_item("fn add(a: i32, b: i32) -> i32 { a + b }");
    match &item {
        Item::Function { name, params, return_type, .. } => {
            assert_eq!(name, "add");
            assert_eq!(params.len(), 2);
            assert!(matches!(&params[0].node.pattern, Some(p) if matches!(&p.node, Pattern::Identifier { ident, .. } if ident == "a")));
            assert!(matches!(&params[1].node.pattern, Some(p) if matches!(&p.node, Pattern::Identifier { ident, .. } if ident == "b")));
            assert!(matches!(&params[0].node.param_type.node, TypeKind::PathType(p) if p.node.segments[0].node.ident == "i32"));
            assert!(matches!(return_type, Some(t) if matches!(&t.node, TypeKind::PathType(p) if p.node.segments[0].node.ident == "i32")));
        }
        other => panic!("not a function: {other:?}"),
    }
    let body = function_body(item);
    assert_eq!(body.len(), 1);
    match &body[0] {
        Statement::Expression(e) => match &*e.node {
            Expression::Binary { operator, left, right } => {
                assert_eq!(*operator, BinaryOperator::Addition);
                assert!(matches!(&*left.node, Expression::Path(p) if p.node.segments[0].node.ident == "a"));
                assert!(matches!(&*right.node, Expression::Path(p) if p.node.segments[0].node.ident == "b"));
            }
            other => panic!("not a binary expression: {other:?}"),
        },
        other => panic!("not an expression: {other:?}"),
    }
}

#[test]
fn multiplication_binds_tighter_than_addition() {
    let body = function_body(parsed_item("fn f() { 1 + 2 * 3 }"));
    assert_eq!(body.len(), 1);
    let Statement::Expression(e) = &body[0] else { panic!("not an expression") };
    let Expression::Binary { operator, left, right } = &*e.node else { panic!("not binary") };
    assert_eq!(*operator, BinaryOperator::Addition);
    assert!(matches!(&*left.node, Expression::Literal(l) if matches!(&l.node, Literal::Integer { value, .. } if value == "1")));
    let Expression::Binary { operator, left, right } = &*right.node else { panic!("not binary") };
    assert_eq!(*operator, BinaryOperator::Multiply);
    assert!(matches!(&*left.node, Expression::Literal(l) if matches!(&l.node, Literal::Integer { value, .. } if value == "2")));
    assert!(matches!(&*right.node, Expression::Literal(l) if matches!(&l.node, Literal::Integer { value, .. } if value == "3")));
}

#[test]
fn parses_let_statement_with_type_and_initializer() {
    let body = function_body(parsed_item("fn main() { let x: i32 = 5; }"));
    assert_eq!(body.len(), 1);
    match &body[0] {
        Statement::Let { name, variable_type, initializer, label } => {
            assert!(matches!(&name.node, Pattern::Identifier { ident, mutable: false, reference: false } if ident == "x"));
            assert!(matches!(variable_type, Some(t) if matches!(&t.node, TypeKind::PathType(p) if p.node.segments[0].node.ident == "i32")));
            assert!(matches!(initializer, Some(e) if matches!(&*e.node, Expression::Literal(l) if matches!(&l.node, Literal::Integer { value, .. } if value == "5"))));
            assert!(label.is_none());
        }
        other => panic!("not a let statement: {other:?}"),
    }
}

#[test]
fn parses_call_with_arguments() {
    let body = function_body(parsed_item("fn main() { f(1, 2); }"));
    assert_eq!(body.len(), 1);
    let Statement::Expression(e) = &body[0] else { panic!("not an expression") };
    let Expression::Call { function, arguments } = &*e.node else { panic!("not a call: {e:?}") };
    assert!(matches!(&*function.node, Expression::Path(p) if p.node.segments[0].node.ident == "f"));
    assert_eq!(arguments.len(), 2);
}

#[test]
fn parses_if_else_and_comparison() {
    let body = function_body(parsed_item("fn main() { if a < b { 1 } else { 2 } }"));
    assert_eq!(body.len(), 1);
    let Statement::Expression(e) = &body[0] else { panic!("not an expression") };
    let Expression::If { condition, else_body, .. } = &*e.node else { panic!("not an if: {e:?}") };
    assert!(matches!(&*condition.node, Expression::Comparison { operator: ComparisonOperator::LessThan, .. }));
    assert!(else_body.is_some());
}

#[test]
fn parses_while_loop() {
    let body = function_body(parsed_item("fn main() { while x { break; } }"));
    assert_eq!(body.len(), 1);
    let Statement::Expression(e) = &body[0] else { panic!("not an expression") };
    assert!(matches!(&*e.node, Expression::Loop(l) if matches!(&l.node, LoopExpr::While { .. })));
}

#[test]
fn parses_struct_fields() {
    match parsed_item("struct Point { x: i32, y: i32 }") {
        Item::Struct { name, fields } => {
            assert_eq!(name, "Point");
            let names: Vec<&str> = fields.iter().map(|f| f.node.name.as_str()).collect();
            assert_eq!(names, vec!["x", "y"]);
        }
        other => panic!("not a struct: {other:?}"),
    }
}

#[test]
fn parses_empty_struct() {
    match parsed_item("struct Unit { }") {
        Item::Struct { name, fields } => {
            assert_eq!(name, "Unit");
            assert!(fields.is_empty());
        }
        other => panic!("not a struct: {other:?}"),
    }
}

#[test]
fn parses_enumeration_items() {
    match parsed_item("enum Shape { Circle, Square { side: i32 } }") {
        Item::Enumeration { name, items } => {
            assert_eq!(name, "Shape");
            assert_eq!(items.len(), 2);
        }
        other => panic!("not an enumeration: {other:?}"),
    }
}

#[test]
fn rejects_statement_outside_item() {
    assert!(parse_source("let x = 1;").is_err());
}

#[test]
fn rejects_unfinished_function() {
    assert!(parse_source("fn main(").is_err());
}

#[test]
fn parser_stands_at_furthest_position_after_parse() {
    let tokens = musubu::lexer::tokenize("fn main() {}").unwrap();
    let values = no_exponents(&tokens);
    let stream = tokenize(&tokens).unwrap();
    let mut parser = PackratAndPrattParser::new(stream, values);
    assert!(parser.parse().is_ok());
    assert_eq!(parser.max_read_position(), 6);
    assert!(parser.current_token().is_none());
    assert_eq!(rule_name(RULE_ITEM), "Item");
}

fn parse_with_exponent(src: &str, value: Result<String, ParseError>) -> Result<Vec<ASTNode>, ParseError> {
    let tokens = musubu::lexer::tokenize(src).unwrap();
    let stream = tokenize(&tokens).unwrap();
    let mut values = Vec::new();
    let mut value = Some(value);
    let mut i = 0;
    while let Some(token) = stream.get_from_index(i) {
        let is_exponent = matches!(
            &token.token_kind,
            MusubuTokenKind::Literal(MusubuLiteral::Float(FloatLiteral::Exponent { .. }))
        );
        if is_exponent {
            values.push(value.take().unwrap());
        } else {
            values.push(Ok(String::new()));
        }
        i += 1;
    }
    parse(&tokens, values)
}

#[test]
fn exponent_literal_takes_its_value() {
    let mut items = parse_with_exponent("fn f() { 1e2 }", Ok("100".to_string())).unwrap();
    let ASTNode::Item { item, .. } = items.remove(0) else { panic!("not an item") };
    let body = function_body(item.node);
    assert_eq!(body.len(), 1);
    let Statement::Expression(e) = &body[0] else { panic!("not an expression") };
    assert!(matches!(&*e.node, Expression::Literal(l) if matches!(&l.node, Literal::Float { value, .. } if value == "100")));
}

#[test]
fn exponent_literal_error_fails_the_parse() {
    let error = "x".parse::<f64>().unwrap_err();
    assert!(parse_with_exponent("fn f() { 1e2 }", Err(ParseError::FloatErr(error))).is_err());
}

#[test]
fn parses_function_declaration_without_body() {
    match parsed_item("fn declared(x: i32) -> i32;") {
        Item::Function { name, params, return_type, body } => {
            assert_eq!(name, "declared");
            assert_eq!(params.len(), 1);
            assert!(return_type.is_some());
            assert!(body.is_none());
        }
        other => panic!("not a function: {other:?}"),
    }
}

#[test]
fn parses_bare_function_declaration() {
    match parsed_item("fn f();") {
        Item::Function { name, params, return_type, body } => {
            assert_eq!(name, "f");
            assert!(params.is_empty());
            assert!(return_type.is_none());
            assert!(body.is_none());
        }
        other => panic!("not a function: {other:?}"),
    }
}
