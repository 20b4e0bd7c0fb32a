use musubu::lexer::errors::TokenizeError;
use musubu::lexer::token::{LineBreak, Space, Symbol, TokenKind};
use musubu::lexer::tokenize;
use musubu::primitive::{Integer, PrimitiveType};

fn i32_type() -> PrimitiveType {
    PrimitiveType::Integer { signed: true, byte: 4 }
}

#[test]
fn type_names() {
    assert_eq!(PrimitiveType::from("i32"), Some(i32_type()));
    assert_eq!(PrimitiveType::from("u8"), Some(PrimitiveType::Integer { signed: false, byte: 1 }));
    assert_eq!(PrimitiveType::from("f64"), Some(PrimitiveType::Float { byte: 8 }));
    assert_eq!(PrimitiveType::from("i12"), None);
    assert_eq!(PrimitiveType::from("i"), None);
    assert_eq!(PrimitiveType::from("bool"), None);
    assert_eq!(
        PrimitiveType::from("vec3"),
        Some(PrimitiveType::Vector { type_kind: Box::new(PrimitiveType::Float { byte: 4 }), dimension: 3 })
    );
    assert_eq!(
        PrimitiveType::from("vec2i16"),
        Some(PrimitiveType::Vector { type_kind: Box::new(PrimitiveType::Integer { signed: true, byte: 2 }), dimension: 2 })
    );
    assert_eq!(
        PrimitiveType::from("mat4x3f32"),
        Some(PrimitiveType::Matrix { type_kind: Box::new(PrimitiveType::Float { byte: 4 }), rows: 3, columns: 4 })
    );
    assert_eq!(PrimitiveType::from("mat4"), None);
    assert_eq!(PrimitiveType::from("vecx"), None);
}

#[test]
fn type_validity() {
    assert!(i32_type().is_valid());
    assert!(!PrimitiveType::Integer { signed: true, byte: 0 }.is_valid());
    assert!(!PrimitiveType::Vector { type_kind: Box::new(PrimitiveType::Boolean), dimension: 3 }.is_valid());
    assert!(!PrimitiveType::Array { type_kind: Box::new(i32_type()), size: 0 }.is_valid());
    assert!(PrimitiveType::Struct { elements: vec![i32_type(), PrimitiveType::Unit] }.is_valid());
    assert!(!PrimitiveType::Struct { elements: vec![i32_type(), PrimitiveType::Float { byte: 0 }] }.is_valid());
    assert_eq!(PrimitiveType::default_integer(), i32_type());
    assert_eq!(PrimitiveType::default_float(), PrimitiveType::Float { byte: 4 });
}

#[test]
fn integers_parse_in_range() {
    assert_eq!(Integer::new("127", &PrimitiveType::Integer { signed: true, byte: 1 }), Some(Integer::Int8(127)));
    assert_eq!(Integer::new("128", &PrimitiveType::Integer { signed: true, byte: 1 }), None);
    assert_eq!(Integer::new("-128", &PrimitiveType::Integer { signed: true, byte: 1 }), Some(Integer::Int8(-128)));
    assert_eq!(Integer::new("-1", &PrimitiveType::Integer { signed: false, byte: 4 }), None);
    assert_eq!(Integer::new("+7", &PrimitiveType::Integer { signed: false, byte: 2 }), Some(Integer::Uint16(7)));
    assert_eq!(Integer::new("", &i32_type()), None);
    assert_eq!(Integer::new("12a", &i32_type()), None);
    assert_eq!(Integer::new("1", &PrimitiveType::Integer { signed: true, byte: 3 }), None);
    assert_eq!(Integer::new("1", &PrimitiveType::Boolean), None);
    assert_eq!(
        Integer::new("18446744073709551615", &PrimitiveType::Integer { signed: false, byte: 8 }),
        Some(Integer::Uint64(u64::MAX))
    );
}

#[test]
fn integer_arithmetic() {
    let a = Integer::Int32(-7);
    let b = Integer::Int32(2);
    assert_eq!(a.add(&b), Integer::Int32(-5));
    assert_eq!(a.sub(&b), Integer::Int32(-9));
    assert_eq!(a.mul(&b), Integer::Int32(-14));
    assert_eq!(a.div(&b), Integer::Int32(-3));
    assert_eq!(Integer::Uint8(200).div(&Integer::Uint8(7)), Integer::Uint8(28));
    assert!(Integer::Int64(0).is_zero());
    assert!(!Integer::Uint16(3).is_zero());
}

#[test]
fn lexer_positions_are_byte_offsets() {
    let tokens = tokenize("é x").unwrap();
    assert_eq!(tokens.len(), 3);
    assert_eq!(tokens[0].token_kind, TokenKind::Identifier("é"));
    assert_eq!(tokens[0].token_pos, 0);
    assert_eq!(tokens[1].token_kind, TokenKind::WhiteSpace(vec![Space::Space]));
    assert_eq!(tokens[1].token_pos, 2);
    assert_eq!(tokens[2].token_kind, TokenKind::Identifier("x"));
    assert_eq!(tokens[2].token_pos, 3);
}

#[test]
fn lexer_stops_at_nul() {
    let tokens = tokenize("a\0b").unwrap();
    assert_eq!(tokens.len(), 1);
    assert_eq!(tokens[0].token_kind, TokenKind::Identifier("a"));
}

#[test]
fn lexer_runs_and_symbols() {
    let tokens = tokenize("12+\r\n\tab_").unwrap();
    let kinds: Vec<TokenKind> = tokens.iter().map(|t| t.token_kind.clone()).collect();
    assert_eq!(
        kinds,
        vec![
            TokenKind::Number("12"),
            TokenKind::Symbol(Symbol::Plus),
            TokenKind::LineBreak(vec![LineBreak::CR, LineBreak::LF]),
            TokenKind::WhiteSpace(vec![Space::Tab]),
            TokenKind::Identifier("ab"),
            TokenKind::Symbol(Symbol::Underscore),
        ]
    );
}

#[test]
fn lexer_spells_its_source() {
    let source = "let x = 10;\n  y >>= 2";
    let tokens = tokenize(source).unwrap();
    let mut spelled = String::new();
    for t in &tokens {
        match &t.token_kind {
            TokenKind::Identifier(s) | TokenKind::Number(s) => spelled.push_str(s),
            TokenKind::Symbol(_) => spelled.push_str(&source[t.token_pos..t.token_pos + 1]),
            TokenKind::LineBreak(v) => v.iter().for_each(|b| spelled.push(if *b == LineBreak::CR { '\r' } else { '\n' })),
            TokenKind::WhiteSpace(v) => v.iter().for_each(|s| spelled.push(if *s == Space::Space { ' ' } else { '\t' })),
        }
    }
    assert_eq!(spelled, source);
}

#[test]
fn lexer_errors() {
    assert_eq!(tokenize("a\u{c}"), Err(TokenizeError::UnusableWhitespace { c: '\u{c}', position: 1 }));
    assert_eq!(tokenize("a\u{b}"), Err(TokenizeError::InvalidCharacters { c: '\u{b}', position: 1 }));
    assert_eq!(tokenize("1 \u{1F600}"), Err(TokenizeError::InvalidCharacters { c: '\u{1F600}', position: 2 }));
}

#[test]
fn tokens_stand_at_their_byte_offsets_and_runs_are_whole() {
    let source = "aé1  99\n\nx(y)";
    let tokens = tokenize(source).unwrap();
    let positions: Vec<usize> = tokens.iter().map(|t| t.token_pos).collect();
    assert_eq!(positions, vec![0, 4, 6, 8, 10, 11, 12, 13]);
    for pair in tokens.windows(2) {
        let glued = matches!(
            (&pair[0].token_kind, &pair[1].token_kind),
            (TokenKind::Number(_), TokenKind::Number(_))
                | (TokenKind::WhiteSpace(_), TokenKind::WhiteSpace(_))
                | (TokenKind::LineBreak(_), TokenKind::LineBreak(_))
                | (TokenKind::Identifier(_), TokenKind::Identifier(_))
                | (TokenKind::Identifier(_), TokenKind::Number(_))
        );
        assert!(!glued);
    }
}
