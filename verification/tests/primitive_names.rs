use musubu::primitive::PrimitiveType;

fn i32_type() -> PrimitiveType {
    PrimitiveType::Integer { signed: true, byte: 4 }
}

#[test]
fn printed_names() {
    assert_eq!(PrimitiveType::Unit.to_string(), "void");
    assert_eq!(PrimitiveType::Boolean.to_string(), "bool");
    assert_eq!(i32_type().to_string(), "int_32");
    assert_eq!(PrimitiveType::Integer { signed: false, byte: 8 }.to_string(), "uint_64");
    assert_eq!(PrimitiveType::Float { byte: 4 }.to_string(), "float_32");
    assert_eq!(PrimitiveType::Array { type_kind: Box::new(i32_type()), size: 10 }.to_string(), "int_32[10]");
    assert_eq!(PrimitiveType::Pointer { point: Box::new(PrimitiveType::Boolean) }.to_string(), "bool_ptr");
    assert_eq!(
        PrimitiveType::Function { return_type: Box::new(PrimitiveType::Unit), arguments: vec![i32_type(), PrimitiveType::Boolean] }
            .to_string(),
        "fn(int_32_bool)->void"
    );
    assert_eq!(PrimitiveType::Function { return_type: Box::new(i32_type()), arguments: vec![] }.to_string(), "fn()->int_32");
    assert_eq!(
        PrimitiveType::Vector { type_kind: Box::new(PrimitiveType::Float { byte: 4 }), dimension: 3 }.to_string(),
        "vec<float_32>3"
    );
    assert_eq!(
        PrimitiveType::Matrix { type_kind: Box::new(PrimitiveType::Float { byte: 8 }), rows: 4, columns: 2 }.to_string(),
        "matrix<float_64>4x2"
    );
    assert_eq!(PrimitiveType::Struct { elements: vec![i32_type(), PrimitiveType::Boolean] }.to_string(), "int_32bool");
    assert_eq!(PrimitiveType::Integer { signed: true, byte: 255 }.to_string(), "int_2040");
}

#[test]
fn clone_and_compare() {
    let t = PrimitiveType::Function {
        return_type: Box::new(PrimitiveType::Struct { elements: vec![i32_type()] }),
        arguments: vec![PrimitiveType::Pointer { point: Box::new(PrimitiveType::Unit) }],
    };
    let c = t.clone();
    assert_eq!(c, t);
    assert!(c.same_type(&t));
    assert!(!t.same_type(&i32_type()));
    assert!(!PrimitiveType::Struct { elements: vec![i32_type()] }.same_type(&PrimitiveType::Struct { elements: vec![] }));
}
