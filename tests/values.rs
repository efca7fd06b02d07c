use z_lang::ast::{Span, Type};
use z_lang::error::ZError;

#[test]
fn span_from_range() {
    let s: Span = Span::from(3..8);
    assert_eq!(s, Span { start: 3, end: 8 });
}

#[test]
fn type_texts() {
    let t = Type::Function(vec![Type::Int, Type::Array(Box::new(Type::Float))], Box::new(Type::Bool));
    assert_eq!(t.to_string(), "fn(int, [float]) -> bool");
    assert_eq!(Type::Struct("Point".to_string()).to_string(), "Point");
    assert_eq!(Type::Inferred.to_string(), "_");
    assert_eq!(Type::Function(vec![], Box::new(Type::Void)).to_string(), "fn() -> void");
    let copy = t.clone();
    assert_eq!(copy.to_string(), t.to_string());
}

#[test]
fn zerror_constructors() {
    let e = ZError::syntax_error("src".to_string(), Span { start: 1, end: 2 }, "bad".to_string());
    assert!(matches!(e, ZError::SyntaxError { ref message, span, .. } if message == "bad" && span.start == 1));
    let e = ZError::type_error("s".to_string(), Span { start: 0, end: 0 }, "m".to_string());
    assert!(matches!(e, ZError::TypeError { .. }));
    let e = ZError::name_error("s".to_string(), Span { start: 0, end: 0 }, "m".to_string());
    assert!(matches!(e, ZError::NameError { .. }));
    let e = ZError::runtime_error("boom".to_string());
    assert!(matches!(e, ZError::RuntimeError { ref message } if message == "boom"));
}
