use std::cmp::Ordering;
use yugolang::typing::static_analysis::TypeError;
use yugolang::typing::{Direction, FunctionType, Identifier, Priority, PriorityLayer, Type};

#[test]
fn priorities_compare_by_their_layers() {
    assert_eq!(Priority::new(3).cmp(&Priority::new(4)), Ordering::Less);
    assert_eq!(Priority::new(4).cmp(&Priority::new(3)), Ordering::Greater);
    assert_eq!(Priority::new(3).cmp(&Priority::new(3)), Ordering::Equal);
    assert!(Priority::new(-4) > Priority::new(-6));
    assert!(Priority::new(-6) == Priority::new(-6));
    assert!(Priority::minus_inf() < Priority::new(i64::MIN));
    assert!(Priority::inf() > Priority::new(i64::MAX));
    assert!(Priority::minus_inf() == Priority::minus_inf());
}

#[test]
fn layers_compare_with_infinities_at_the_ends() {
    assert_eq!(PriorityLayer::NegativeInfinity.cmp(&PriorityLayer::Finite(0)), Ordering::Less);
    assert_eq!(PriorityLayer::Infinity.cmp(&PriorityLayer::Finite(0)), Ordering::Greater);
    assert_eq!(PriorityLayer::Finite(2).cmp(&PriorityLayer::Finite(2)), Ordering::Equal);
    assert!(PriorityLayer::Finite(1) < PriorityLayer::Finite(2));
    assert_eq!(*Priority::new(5).first(), PriorityLayer::Finite(5));
}

#[test]
fn directions_have_offsets_and_opposites() {
    assert_eq!(Direction::Right.to_offset(), 1);
    assert_eq!(Direction::Left.to_offset(), usize::MAX);
    assert_eq!(Direction::Right.other_way(), Direction::Left);
    assert_eq!(Direction::Left.other_way(), Direction::Right);
    assert_eq!(Direction::Left.to_offset().wrapping_add(5), 4);
}

fn int_arg(name: &str) -> Vec<Identifier> {
    vec![Identifier::new(Type::Int, name)]
}

#[test]
fn curry_lr_returns_a_rightwards_function_one_priority_higher() {
    let t = FunctionType::curry_lr(-6, Type::Int, int_arg("a"), int_arg("b"));
    assert_eq!(t.get_direction(), Direction::Left);
    assert!(*t.get_priority() == Priority::new(-6));
    assert_eq!(t.get_input().len(), 1);
    assert!(*t.get_input()[0].get_type() == Type::Int);
    let expected_output = Type::Function(FunctionType::new_r(Priority::new(-5), int_arg("b"), Type::Int));
    let again = FunctionType::new_l(Priority::new(-6), int_arg("a"), expected_output);
    assert!(t == again);
}

#[test]
fn curry_rr_and_ll_keep_the_priority() {
    let rr = FunctionType::curry_rr(2, Type::Int, int_arg("a"), int_arg("b"));
    let rr_expected = FunctionType::new_r(
        Priority::new(2),
        int_arg("a"),
        Type::Function(FunctionType::new_r(Priority::new(2), int_arg("b"), Type::Int)),
    );
    assert!(rr == rr_expected);
    let ll = FunctionType::curry_ll(2, Type::Int, int_arg("a"), int_arg("b"));
    assert_eq!(ll.get_direction(), Direction::Left);
    assert!(!(ll == rr));
}

#[test]
fn a_scope_type_has_no_inputs_and_the_lowest_priority() {
    let t = FunctionType::scope(Type::String);
    assert_eq!(t.get_direction(), Direction::Right);
    assert!(*t.get_priority() == Priority::minus_inf());
    assert!(t.get_input().is_empty());
    assert!(t == FunctionType::new(Direction::Right, Priority::minus_inf(), vec![], Type::String));
}

#[test]
fn types_are_equal_field_by_field() {
    assert!(Type::Int == Type::Int);
    assert!(!(Type::Int == Type::Float));
    let f = Type::Function(FunctionType::scope(Type::Int));
    assert!(f == f.clone());
    assert!(!(f == Type::Function(FunctionType::scope(Type::Float))));
    assert!(!(f == Type::Unit));
    let a = Identifier::new(Type::Int, "a");
    assert!(a == a.clone());
    assert!(!(a == Identifier::new(Type::Int, "b")));
    assert!(!(a == Identifier::new(Type::Boolean, "a")));
}

#[test]
fn sides_layers_and_types_have_their_texts() {
    assert_eq!(Direction::Left.to_display_string(), "L");
    assert_eq!(Direction::Right.to_display_string(), "R");
    assert_eq!(PriorityLayer::Finite(-6).to_display_string(), "-6");
    assert_eq!(PriorityLayer::Infinity.to_display_string(), "\u{221e}");
    assert_eq!(PriorityLayer::NegativeInfinity.to_display_string(), "-\u{221e}");
    assert_eq!(Type::Int.to_display_string(), "integer");
    assert_eq!(Type::Unit.to_display_string(), "()");
    assert_eq!(Type::Boolean.to_display_string(), "bool");
}

#[test]
fn a_function_type_reads_with_its_side_priority_inputs_and_output() {
    let scope = Type::Function(FunctionType::scope(Type::Int));
    assert_eq!(scope.to_display_string(), "func [R, -\u{221e}] ([]) -> integer");
    let t = FunctionType::curry_lr(-6, Type::Int, int_arg("a"), int_arg("b"));
    assert_eq!(
        t.to_display_string(),
        "func [L, -6] ([Identifier { id_type: Int, name: \"a\" }]) -> \
         func [R, -5] ([Identifier { id_type: Int, name: \"b\" }]) -> integer"
    );
}

#[test]
fn type_errors_explain_themselves() {
    let missing = TypeError::MissingVariable { name: "x".to_string() };
    assert_eq!(missing.to_display_string(), "variable x not found");
    let mismatch = TypeError::MismatchedTypes { expected: Type::Int, got: Type::String };
    assert_eq!(mismatch.to_display_string(), "expected type integer, got string");
}

#[test]
fn debug_texts_match_what_debug_prints() {
    let t = Type::Function(FunctionType::curry_lr(-6, Type::Int, int_arg("a\"b"), int_arg("c")));
    assert_eq!(t.debug_string(), format!("{:?}", t));
    let p = FunctionType::scope(Type::Unit);
    assert_eq!(p.debug_string(), format!("{:?}", p));
    assert_eq!(Priority::inf().debug_string(), "Priority { value: Infinity, next: None }");
    assert_eq!(PriorityLayer::Finite(-3).debug_string(), "Finite(-3)");
    assert_eq!(Direction::Left.debug_string(), "Left");
    let id = Identifier::new(Type::Boolean, "x");
    assert_eq!(id.debug_string(), "Identifier { id_type: Boolean, name: \"x\" }");
}
