use musubu::cache::{Allocator, CacheCollector, LinearAllocator, TypeCache};
use musubu::ir_compiler::register_allocator::RegisterAllocator;
use musubu::name_space::errors::NameSpaceError;
use musubu::name_space::{EnumItem, FunctionItem, ItemStore, ItemStoreReader, ItemSymbol, Module, StructItem};
use musubu::primitive::{PrimitiveType, ToPrimitiveType};
use musubu::scope::TypeSymbol;

fn i32_type() -> PrimitiveType {
    PrimitiveType::Integer { signed: true, byte: 4 }
}

#[test]
fn registers_are_given_back_by_blocks() {
    let mut allocator = RegisterAllocator::new();
    assert_eq!(allocator.allocate().0, 0);
    allocator.enter_block();
    assert_eq!(allocator.allocate().0, 1);
    assert_eq!(allocator.allocate().0, 2);
    allocator.exit_block();
    assert_eq!(allocator.allocate().0, 1);
    assert_eq!(allocator.get_size(), 3);
    allocator.exit_block();
    assert_eq!(allocator.allocate().0, 2);
    assert_eq!(allocator.get_size(), 3);
}

#[test]
fn linear_allocator_numbers_names_once() {
    let mut allocator = LinearAllocator::new();
    assert_eq!(allocator.allocate("main".to_string()), 0);
    assert_eq!(allocator.allocate("helper".to_string()), 1);
    assert_eq!(allocator.allocate("main".to_string()), 0);
    assert_eq!(allocator.allocate("other".to_string()), 2);
}

#[test]
fn type_cache_registers_and_replaces() {
    let mut cache = TypeCache::new();
    assert!(cache.get(&4).is_none());
    cache.register(4, i32_type());
    assert_eq!(cache.get(&4), Some(&i32_type()));
    cache.register(4, PrimitiveType::Boolean);
    assert_eq!(cache.get(&4), Some(&PrimitiveType::Boolean));
}

#[test]
fn function_item_type() {
    let mut f = FunctionItem::new(2, "add", TypeSymbol::new(i32_type()));
    assert!(f.add_argument(TypeSymbol::new(i32_type())).is_ok());
    assert!(f.add_argument(TypeSymbol::new(PrimitiveType::Boolean)).is_ok());
    assert_eq!(f.get_arguments().len(), 2);
    assert_eq!(f.get_return_type().type_kind, i32_type());
    assert_eq!(
        f.to_type(),
        PrimitiveType::Function { return_type: Box::new(i32_type()), arguments: vec![i32_type(), PrimitiveType::Boolean] }
    );
    let g = f.clone();
    assert_eq!(g.id, 2);
    assert_eq!(g.name, "add");
}

#[test]
fn struct_fields_in_order() {
    let mut s = StructItem::new("Point");
    s.add_field("x", TypeSymbol::new(i32_type())).unwrap();
    s.add_field("y", TypeSymbol::new(PrimitiveType::Boolean)).unwrap();
    assert_eq!(s.add_field("x", TypeSymbol::new(PrimitiveType::Unit)), Err(NameSpaceError::DuplicateStructField { name: "x".to_string() }));
    assert_eq!(s.to_type(), PrimitiveType::Struct { elements: vec![PrimitiveType::Unit, PrimitiveType::Boolean] });
}

#[test]
fn enum_variants_and_fields() {
    let mut e = EnumItem::new("Shape");
    e.add_variant("Circle").unwrap();
    e.add_variant("Square").unwrap();
    e.add_variant_field("Circle", "radius", TypeSymbol::new(i32_type())).unwrap();
    assert_eq!(
        e.add_variant_field("Triangle", "side", TypeSymbol::new(i32_type())),
        Err(NameSpaceError::UnresolvedEnumVariant { name: "Triangle".to_string() })
    );
    assert_eq!(
        e.add_variant_field("Circle", "radius", TypeSymbol::new(i32_type())),
        Err(NameSpaceError::DuplicateEnumVariant { name: "radius".to_string() })
    );
    assert_eq!(e.add_variant("Square"), Err(NameSpaceError::DuplicateEnumVariant { name: "Square".to_string() }));
    assert_eq!(
        e.to_type(),
        PrimitiveType::Enumeration {
            variants: vec![PrimitiveType::Struct { elements: vec![i32_type()] }, PrimitiveType::Struct { elements: vec![] }],
        }
    );
}

#[test]
fn module_items() {
    let mut m = Module::new("root");
    assert!(m.add_function(FunctionItem::new(0, "main", TypeSymbol::new(PrimitiveType::Unit))).is_ok());
    assert!(m.add_struct(StructItem::new("Point")).is_ok());
    assert!(m.get_function("main").is_some());
    assert!(m.get_struct("main").is_none());
    assert!(m.get_struct("Point").is_some());
    assert!(m.get_enumeration("Point").is_none());
    assert_eq!(
        m.add_function(FunctionItem::new(1, "main", TypeSymbol::new(i32_type()))),
        Err(NameSpaceError::DuplicateFunction { name: "main".to_string() })
    );
    assert_eq!(m.get_function("main").unwrap().id, 1);
    assert_eq!(
        m.get_type("main").unwrap().type_kind,
        PrimitiveType::Function { return_type: Box::new(i32_type()), arguments: vec![] }
    );
    assert!(matches!(m.get_item("Point"), Some(ItemSymbol::Struct(_))));
    assert!(m.add_enumeration(EnumItem::new("E")).is_ok());
    assert_eq!(m.add_enumeration(EnumItem::new("E")), Err(NameSpaceError::DuplicateEnumeration { name: "E".to_string() }));
}

#[test]
fn module_paths() {
    let mut root = Module::new("root");
    root.add_modules(&["a", "b", "c"]);
    root.add_module("x");
    assert!(root.get_module("a").is_some());
    assert!(root.get_module("x").is_some());
    assert!(root.get_module("b").is_none());
    assert!(root.get_module_from_path(&[]).is_some());
    assert!(root.get_module_from_path(&["b"]).is_none());
    let c = root.get_module_from_path(&["a", "b", "c"]).unwrap();
    assert!(c.get_module("d").is_none());
    let stop = root.get_module_from_path(&["a", "zz", "c"]).unwrap();
    assert!(stop.get_module("b").is_some());
    let b = root.get_mut_module_from_path(&["a", "b"]).unwrap();
    b.add_struct(StructItem::new("Inner")).unwrap();
    assert!(root.get_module_from_path(&["a", "b"]).unwrap().get_struct("Inner").is_some());
    let x = root.get_mut_child_module("x").unwrap();
    x.add_module("y");
    assert!(root.get_module_from_path(&["x", "y"]).is_some());
    assert!(root.get_mut_module("nothing").is_none());
}

#[test]
fn nested_blocks_hand_back_their_registers() {
    let mut allocator = RegisterAllocator::new();
    allocator.allocate();
    allocator.enter_block();
    allocator.allocate();
    allocator.enter_block();
    allocator.allocate();
    allocator.allocate();
    allocator.exit_block();
    allocator.allocate();
    allocator.exit_block();
    assert_eq!(allocator.allocate().0, 1);
    assert_eq!(allocator.get_size(), 4);
    allocator.exit_block();
    allocator.exit_block();
    assert_eq!(allocator.allocate().0, 2);
}
