use toucan_semantic::ir::{
    CallingConvention, FunctionType, IntegerKind, Parameter, Qualifiers, Type, TypeKind, VariableArrayId,
};
use toucan_semantic::noescape::{ParameterContracts, ParameterContractsId};
use toucan_semantic::object_types::{ObjectTypeComparison, COMPARISON_LIMIT};

fn c_int() -> Type {
    Type::new(TypeKind::Integer(IntegerKind::Int))
}

fn named(name: &str) -> Type {
    Type::new(TypeKind::Typedef(name.to_string()))
}

fn function(return_type: Type, parameters: Vec<Type>) -> FunctionType {
    FunctionType {
        noreturn: false,
        parameter_contracts: None,
        return_type,
        parameters: parameters.into_iter().map(|ty| Parameter { name: None, ty }).collect(),
        variadic: false,
        prototype: true,
        calling_convention: CallingConvention::C,
    }
}

fn pointer_to_function(return_type: Type, parameters: Vec<Type>) -> Type {
    Type::new(TypeKind::Function(Box::new(function(return_type, parameters)))).pointer()
}

fn array(element: Type, length: Option<u64>) -> Type {
    Type::new(TypeKind::Array { element: Box::new(element), length })
}

fn qualified_const(mut ty: Type) -> Type {
    ty.qualifiers = Qualifiers::none().with_const();
    ty
}

/// `typedef int (*A0)(void); typedef int (*B0)(void);` and for each level
/// `typedef int (*An)(An-1, An-1);`, the same for `B`.
fn callback_typedefs() -> Vec<(String, Type)> {
    let mut typedefs = vec![
        ("A0".to_string(), pointer_to_function(c_int(), vec![])),
        ("B0".to_string(), pointer_to_function(c_int(), vec![])),
    ];
    for level in 1..12 {
        let previous = level - 1;
        let a = format!("A{previous}");
        let b = format!("B{previous}");
        typedefs.push((format!("A{level}"), pointer_to_function(c_int(), vec![named(&a), named(&a)])));
        typedefs.push((format!("B{level}"), pointer_to_function(c_int(), vec![named(&b), named(&b)])));
    }
    typedefs
}

fn entry<'a>(typedefs: &'a [(String, Type)], name: &str) -> &'a Type {
    &typedefs.iter().find(|(n, _)| n == name).unwrap().1
}

#[test]
fn shared_callback_pairs_are_visited_once_and_budget_survives_new_comparators() {
    let typedefs = callback_typedefs();
    let contracts: Vec<ParameterContracts> = Vec::new();
    let a = entry(&typedefs, "A11");
    let b = entry(&typedefs, "B11");
    let mut comparison = ObjectTypeComparison::new(&typedefs, &contracts);
    assert!(comparison.same_type(a, b).unwrap());
    assert!(COMPARISON_LIMIT - comparison.remaining() < 200);
    let before = comparison.remaining();
    for _ in 0..100 {
        assert!(comparison.same_type(a, b).unwrap());
    }
    assert!(before - comparison.remaining() <= 200);
    let mut remaining = 1;
    for _ in 0..2 {
        let mut comparison = ObjectTypeComparison::with_remaining(&typedefs, &contracts, remaining);
        let error = comparison.same_type(a, b).unwrap_err();
        remaining = comparison.remaining();
        assert_eq!(error.message, "object-type comparison reference limit exceeded");
    }
}

#[test]
fn typedef_spelling_is_not_identity() {
    let typedefs = vec![("I".to_string(), c_int()), ("J".to_string(), named("I"))];
    let contracts: Vec<ParameterContracts> = Vec::new();
    let spelled = named("J");
    let plain = c_int();
    let mut comparison = ObjectTypeComparison::new(&typedefs, &contracts);
    assert!(comparison.same_type(&spelled, &plain).unwrap());
    assert!(comparison.same_type(&plain, &spelled).unwrap());
    // Two references through `J`, then `I`, and one for `int` itself.
    assert_eq!(COMPARISON_LIMIT - comparison.remaining(), 8);
}

#[test]
fn qualifiers_and_kinds_are_significant() {
    let typedefs: Vec<(String, Type)> = vec![("CI".to_string(), qualified_const(c_int()))];
    let contracts: Vec<ParameterContracts> = Vec::new();
    let constant = qualified_const(c_int());
    let plain = c_int();
    let spelled = named("CI");
    let long = Type::new(TypeKind::Integer(IntegerKind::Long));
    let pointer = c_int().pointer();
    let mut comparison = ObjectTypeComparison::new(&typedefs, &contracts);
    assert!(!comparison.same_type(&constant, &plain).unwrap());
    assert!(comparison.same_type(&spelled, &constant).unwrap());
    assert!(!comparison.same_type(&long, &plain).unwrap());
    assert!(!comparison.same_type(&plain, &pointer).unwrap());
}

#[test]
fn array_completion_only_in_declaration_matching() {
    let typedefs: Vec<(String, Type)> = Vec::new();
    let contracts: Vec<ParameterContracts> = Vec::new();
    let unknown = array(c_int(), None);
    let four = array(c_int(), Some(4));
    let another_four = array(c_int(), Some(4));
    let five = array(c_int(), Some(5));
    let constant_elements = array(qualified_const(c_int()), Some(4));
    let constant_array = qualified_const(array(c_int(), Some(4)));
    let first = Type::new(TypeKind::VariableArray { element: Box::new(c_int()), identity: VariableArrayId(1) });
    let second = Type::new(TypeKind::VariableArray { element: Box::new(c_int()), identity: VariableArrayId(2) });
    let mut comparison = ObjectTypeComparison::new(&typedefs, &contracts);
    assert!(!comparison.same_type(&unknown, &four).unwrap());
    assert!(comparison.matches_declaration(&unknown, &four).unwrap());
    assert!(!comparison.matches_declaration(&four, &unknown).unwrap());
    assert!(comparison.same_type(&four, &another_four).unwrap());
    assert!(!comparison.same_type(&four, &five).unwrap());
    // Array qualifiers are compared at the element.
    assert!(comparison.same_type(&constant_elements, &constant_array).unwrap());
    assert!(!comparison.same_type(&first, &second).unwrap());
}

#[test]
fn parameter_qualifiers_are_ignored_but_prototypes_are_not() {
    let typedefs: Vec<(String, Type)> = Vec::new();
    let contracts: Vec<ParameterContracts> = Vec::new();
    let plain = pointer_to_function(c_int(), vec![c_int()]);
    let constant = pointer_to_function(c_int(), vec![qualified_const(c_int())]);
    let mut old_style = function(c_int(), vec![c_int()]);
    old_style.prototype = false;
    let old_style = Type::new(TypeKind::Function(Box::new(old_style))).pointer();
    let two = pointer_to_function(c_int(), vec![c_int(), c_int()]);
    let mut comparison = ObjectTypeComparison::new(&typedefs, &contracts);
    assert!(comparison.same_type(&plain, &constant).unwrap());
    assert!(!comparison.same_type(&plain, &old_style).unwrap());
    assert!(!comparison.same_type(&plain, &two).unwrap());
}

#[test]
fn noescape_positions_are_part_of_a_function_type() {
    let typedefs: Vec<(String, Type)> = Vec::new();
    let contracts = vec![ParameterContracts { no_escape: vec![0] }, ParameterContracts { no_escape: vec![0] }];
    let mut with_contract = function(c_int(), vec![c_int().pointer()]);
    with_contract.parameter_contracts = ParameterContractsId::new(0);
    let mut other_contract = function(c_int(), vec![c_int().pointer()]);
    other_contract.parameter_contracts = ParameterContractsId::new(1);
    let without = function(c_int(), vec![c_int().pointer()]);
    let mut invalid = function(c_int(), vec![c_int().pointer()]);
    invalid.parameter_contracts = ParameterContractsId::new(7);
    let with_contract = Type::new(TypeKind::Function(Box::new(with_contract)));
    let other_contract = Type::new(TypeKind::Function(Box::new(other_contract)));
    let without = Type::new(TypeKind::Function(Box::new(without)));
    let invalid = Type::new(TypeKind::Function(Box::new(invalid)));
    let mut comparison = ObjectTypeComparison::new(&typedefs, &contracts);
    assert!(comparison.same_type(&with_contract, &other_contract).unwrap());
    assert!(!comparison.same_type(&with_contract, &without).unwrap());
    assert!(comparison.same_type(&invalid, &with_contract).is_err());
}

#[test]
fn unknown_and_cyclic_typedefs_are_errors() {
    let typedefs = vec![("L".to_string(), named("L"))];
    let contracts: Vec<ParameterContracts> = Vec::new();
    let missing = named("missing");
    let cyclic = named("L");
    let plain = c_int();
    let mut comparison = ObjectTypeComparison::new(&typedefs, &contracts);
    let error = comparison.same_type(&missing, &plain).unwrap_err();
    assert_eq!(error.message, "unknown typedef `missing`");
    let error = comparison.same_type(&cyclic, &plain).unwrap_err();
    assert_eq!(error.message, "object-type comparison nesting limit exceeded");
}

#[test]
fn remembered_typedef_pairs_are_charged_only_their_resolution() {
    let typedefs = callback_typedefs();
    let contracts: Vec<ParameterContracts> = Vec::new();
    let a = named("A11");
    let b = named("B11");
    let mut comparison = ObjectTypeComparison::new(&typedefs, &contracts);
    assert!(comparison.same_type(&a, &b).unwrap());
    let before = comparison.remaining();
    assert!(comparison.same_type(&a, &b).unwrap());
    // `A11` and `B11` each resolve in two references: the name, then its definition.
    assert_eq!(before - comparison.remaining(), 4);
    // Another spelling of the same pair is settled from the memo too.
    let again_a = named("A11");
    let again_b = named("B11");
    let before = comparison.remaining();
    assert!(comparison.same_type(&again_a, &again_b).unwrap());
    assert_eq!(before - comparison.remaining(), 4);
}
