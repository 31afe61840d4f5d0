use toucan_semantic::floats::require_linked_float_name;
use toucan_semantic::object_alignment::declaration_natural_alignment;
use toucan_semantic::vector_constant::vector_constant_shape;
use toucan_semantic::initializer::{
    character_array, static_pointer, string_initializer, AddressOperator, PointerBase, PointerConstant, PointerForm, PointerNode,
};
use toucan_semantic::Error;
use toucan_semantic::ir::{FloatKind, IntegerKind, IntegerValue, Type, TypeKind, VectorKind};
use toucan_semantic::object_size::{check_object_size_mode, is_object_size_builtin, object_size_signature};
use toucan_semantic::profile::{Compiler, Target};
use toucan_semantic::transparent_union::{
    check_transparent_definition_merge, member_class, parameter_abi, record_origin, transparent_typedef_action,
    validate_transparent_record, MemberClass, ParameterAbi, TransparentMember, TransparentTypedefAction,
};
use toucan_semantic::vector::{
    check_vector_cast, check_vector_size, compatible_vector_lanes, vector_float_precision, vector_mask,
    vector_of_scalar, vector_scalar_fits,
};
use std::collections::BTreeMap;

fn int_value(bits: u8, signed: bool, rank: u8) -> IntegerValue {
    IntegerValue::new(0, bits, signed, rank)
}

#[test]
fn vector_size_must_be_a_small_power_of_two() {
    for bytes in [1u64, 2, 4, 8, 16] {
        assert!(check_vector_size(bytes, 0, 0).is_ok());
    }
    for bytes in [0u64, 3, 6, 12, 32, 64] {
        assert!(check_vector_size(bytes, 0, 0).is_err());
    }
    assert_eq!(check_vector_size(3, 0, 4).unwrap_err().message, "non-power-of-two vector_size is unsupported");
    assert!(check_vector_size(16, 128, 0).is_err());
}

#[test]
fn vector_of_int_has_lanes_of_the_element_size() {
    let element = Type::new(TypeKind::Integer(IntegerKind::Int));
    let vector = vector_of_scalar(element, 4, 16, 0, 0).unwrap();
    match vector.kind {
        TypeKind::Vector { element, lanes, kind } => {
            assert_eq!(lanes, 4);
            assert_eq!(kind, VectorKind::Gnu);
            assert_eq!(element.kind, TypeKind::Integer(IntegerKind::Int));
        }
        _ => panic!("expected a vector"),
    }
    let element = Type::new(TypeKind::Integer(IntegerKind::Int));
    assert_eq!(vector_of_scalar(element, 4, 2, 0, 3).unwrap_err().message, "vector_size must be a multiple of the element size");
    let element = Type::new(TypeKind::Enum(0));
    assert_eq!(vector_of_scalar(element, 4, 16, 0, 0).unwrap_err().message, "GNU vectors with enum elements are unsupported");
    let element = Type::new(TypeKind::Bool);
    assert!(vector_of_scalar(element, 1, 16, 0, 0).is_err());
}

#[test]
fn vector_masks_and_casts() {
    let mask = vector_mask(8, 2, true, 0).unwrap();
    match mask.kind {
        TypeKind::Vector { element, lanes, .. } => {
            assert_eq!(lanes, 2);
            assert_eq!(element.kind, TypeKind::Integer(IntegerKind::Long));
        }
        _ => panic!("expected a vector"),
    }
    let mask = vector_mask(8, 2, false, 0).unwrap();
    match mask.kind {
        TypeKind::Vector { element, .. } => assert_eq!(element.kind, TypeKind::Integer(IntegerKind::LongLong)),
        _ => panic!("expected a vector"),
    }
    assert!(vector_mask(3, 2, true, 0).is_err());
    let vector = TypeKind::Vector { element: Box::new(Type::new(TypeKind::Integer(IntegerKind::Int))), lanes: 2, kind: VectorKind::Gnu };
    let integer = TypeKind::Integer(IntegerKind::LongLong);
    assert!(check_vector_cast(&vector, &integer, 64, 64, 0).is_ok());
    assert!(check_vector_cast(&vector, &integer, 64, 32, 0).is_err());
    assert!(check_vector_cast(&TypeKind::Float(FloatKind::Double), &vector, 64, 64, 0).is_err());
    let other = TypeKind::Vector { element: Box::new(Type::new(TypeKind::Float(FloatKind::Float))), lanes: 2, kind: VectorKind::Gnu };
    assert!(compatible_vector_lanes(&vector, &other, true));
    assert!(!compatible_vector_lanes(&vector, &other, false));
    assert!(!compatible_vector_lanes(&vector, &integer, true));
}

#[test]
fn vector_scalar_operands_must_fit() {
    let int = int_value(32, true, 3);
    let short = int_value(16, true, 2);
    let unsigned_short = int_value(16, false, 2);
    let unsigned_int = int_value(32, false, 3);
    let target = Target::X86_64UnknownLinuxGnu;
    assert!(vector_scalar_fits(false, Some(int), Some(short), None, None, target));
    assert!(vector_scalar_fits(false, Some(int), Some(unsigned_short), None, None, target));
    assert!(!vector_scalar_fits(false, Some(int), Some(unsigned_int), None, None, target));
    assert!(!vector_scalar_fits(false, Some(short), Some(int), None, None, target));
    assert!(vector_scalar_fits(true, Some(short), Some(int), None, None, target));
    // float holds 24 significant bits: a 16-bit integer fits, a 32-bit one does not.
    assert!(vector_scalar_fits(false, None, Some(short), Some(FloatKind::Float), None, target));
    assert!(!vector_scalar_fits(false, None, Some(int), Some(FloatKind::Float), None, target));
    assert!(vector_scalar_fits(false, None, Some(int), Some(FloatKind::Double), None, target));
    assert!(vector_scalar_fits(false, None, None, Some(FloatKind::Double), Some(FloatKind::Float), target));
    assert!(!vector_scalar_fits(false, None, None, Some(FloatKind::Float), Some(FloatKind::Double), target));
    assert_eq!(vector_float_precision(FloatKind::LongDouble, Target::Aarch64UnknownLinuxGnu), 113);
    assert_eq!(vector_float_precision(FloatKind::LongDouble, Target::X86_64UnknownLinuxGnu), 64);
    assert_eq!(vector_float_precision(FloatKind::LongDouble, Target::X86_64PcWindowsMsvc), 53);
}

fn member(class: MemberClass, size_bits: u64, alignment: u64) -> TransparentMember {
    TransparentMember { bit_field: false, class, size_bits, alignment }
}

#[test]
fn transparent_union_members() {
    assert_eq!(member_class(&TypeKind::Integer(IntegerKind::Int)), MemberClass::Integer);
    assert_eq!(member_class(&TypeKind::Float(FloatKind::Double)), MemberClass::Floating);
    assert_eq!(member_class(&TypeKind::Float(FloatKind::LongDouble)), MemberClass::Other);
    let pointers = [member(MemberClass::Pointer, 64, 8), member(MemberClass::Pointer, 64, 8)];
    assert!(validate_transparent_record(true, Some(&pointers), 64, Compiler::Gnu, 0).is_ok());
    assert!(validate_transparent_record(true, Some(&pointers), 64, Compiler::Clang, 0).is_ok());
    assert!(validate_transparent_record(false, Some(&pointers), 64, Compiler::Gnu, 0).is_err());
    assert!(validate_transparent_record(true, None, 64, Compiler::Gnu, 0).is_err());
    assert!(validate_transparent_record(true, Some(&[]), 64, Compiler::Gnu, 0).is_err());
    let mixed = [member(MemberClass::Integer, 32, 4), member(MemberClass::Pointer, 64, 8)];
    // GCC compares the union with its first member; Clang compares all members.
    assert!(validate_transparent_record(true, Some(&mixed), 64, Compiler::Gnu, 0).is_err());
    assert!(validate_transparent_record(true, Some(&mixed), 32, Compiler::Gnu, 0).is_ok());
    assert!(validate_transparent_record(true, Some(&mixed), 64, Compiler::Clang, 0).is_err());
    let floating_first = [member(MemberClass::Floating, 64, 8)];
    assert!(validate_transparent_record(true, Some(&floating_first), 64, Compiler::Gnu, 0).is_err());
}

#[test]
fn transparent_union_parameters_and_typedefs() {
    assert_eq!(parameter_abi(false, false, Target::X86_64UnknownLinuxGnu, 0, 0).unwrap(), ParameterAbi::Declared);
    assert_eq!(parameter_abi(true, true, Target::X86_64UnknownLinuxGnu, 128, 64).unwrap(), ParameterAbi::FirstMember);
    assert_eq!(parameter_abi(true, true, Target::X86_64PcWindowsMsvc, 64, 64).unwrap(), ParameterAbi::Declared);
    assert!(parameter_abi(true, true, Target::Aarch64UnknownLinuxGnu, 128, 64).is_err());
    assert_eq!(parameter_abi(true, true, Target::Aarch64AppleDarwin, 64, 64).unwrap(), ParameterAbi::FirstMember);
    assert!(parameter_abi(true, false, Target::X86_64PcWindowsMsvc, 64, 64).is_err());

    assert_eq!(transparent_typedef_action(Compiler::Clang, true, false, false, 0).unwrap(), TransparentTypedefAction::UpdateRecord);
    assert_eq!(transparent_typedef_action(Compiler::Gnu, false, false, false, 0).unwrap(), TransparentTypedefAction::CreateVariant);
    assert_eq!(transparent_typedef_action(Compiler::Gnu, false, true, false, 0).unwrap(), TransparentTypedefAction::UpdateRecord);
    assert!(transparent_typedef_action(Compiler::Gnu, true, false, false, 0).is_err());

    assert!(check_transparent_definition_merge(true, false, &[(true, false)], 0).is_err());
    assert!(check_transparent_definition_merge(false, false, &[(true, false)], 0).is_ok());
    assert!(check_transparent_definition_merge(false, true, &[(true, false)], 0).is_ok());
    assert!(check_transparent_definition_merge(false, true, &[(false, true)], 0).is_err());

    let mut origins = BTreeMap::new();
    origins.insert(2usize, 0usize);
    assert_eq!(record_origin(&origins, 3, 2).unwrap(), 0);
    assert_eq!(record_origin(&origins, 3, 1).unwrap(), 1);
    assert!(record_origin(&origins, 3, 5).is_err());
    origins.insert(0, 1);
    assert!(record_origin(&origins, 3, 2).is_err());
}

#[test]
fn object_size_builtins() {
    assert!(is_object_size_builtin("__builtin_object_size"));
    assert!(is_object_size_builtin("__builtin_dynamic_object_size"));
    assert!(!is_object_size_builtin("__builtin_object"));
    assert!(object_size_signature("memcpy", 64, 64).is_none());
    let signature = object_size_signature("__builtin_object_size", 64, 64).unwrap();
    assert_eq!(signature.result.kind, TypeKind::Integer(IntegerKind::UnsignedLong));
    assert_eq!(signature.parameters[1].kind, TypeKind::Integer(IntegerKind::Int));
    match &signature.parameters[0].kind {
        TypeKind::Pointer(pointee) => {
            assert_eq!(pointee.kind, TypeKind::Void);
            assert!(pointee.qualifiers.is_const);
        }
        _ => panic!("expected a pointer"),
    }
    let windows = object_size_signature("__builtin_object_size", 64, 32).unwrap();
    assert_eq!(windows.result.kind, TypeKind::Integer(IntegerKind::UnsignedLongLong));
    assert!(check_object_size_mode(Compiler::Gnu, false, Some(IntegerValue::from_int(3)), 0).is_ok());
    assert!(check_object_size_mode(Compiler::Clang, false, Some(IntegerValue::from_int(3)), 0).is_err());
    assert!(check_object_size_mode(Compiler::Clang, true, Some(IntegerValue::from_int(4)), 0).is_err());
    assert!(check_object_size_mode(Compiler::Clang, true, Some(IntegerValue::from_int(-1)), 0).is_err());
    assert!(check_object_size_mode(Compiler::Gnu, true, None, 0).is_err());
}

#[test]
fn string_literals_initialize_character_arrays() {
    let char_kind = TypeKind::Integer(IntegerKind::Char);
    assert!(character_array(&char_kind));
    assert!(character_array(&TypeKind::Enum(1)));
    assert!(!character_array(&TypeKind::Integer(IntegerKind::Short)));
    assert_eq!(string_initializer(true, &char_kind, None, IntegerKind::Char, 6, None, None, 0).unwrap(), 6);
    // "hello" fits char[5] without its terminator, not char[4].
    assert_eq!(string_initializer(true, &char_kind, Some(5), IntegerKind::Char, 6, None, None, 0).unwrap(), 5);
    assert_eq!(string_initializer(true, &char_kind, Some(4), IntegerKind::Char, 6, None, None, 0).unwrap_err().message, "string literal is too long for the array");
    let unsigned = TypeKind::Integer(IntegerKind::UnsignedChar);
    assert!(string_initializer(true, &unsigned, None, IntegerKind::Char, 2, None, None, 0).is_ok());
    let wide = TypeKind::Integer(IntegerKind::Int);
    assert!(string_initializer(true, &wide, None, IntegerKind::Int, 2, None, None, 0).is_ok());
    assert!(string_initializer(true, &char_kind, None, IntegerKind::Int, 2, None, None, 0).is_err());
    assert!(string_initializer(true, &wide, None, IntegerKind::UnsignedShort, 2, None, None, 0).is_err());
    assert!(string_initializer(false, &char_kind, None, IntegerKind::Char, 2, None, None, 0).is_err());
    let reading = Some(int_value(32, true, 3));
    assert!(string_initializer(true, &TypeKind::Enum(0), None, IntegerKind::Int, 2, reading, reading, 0).is_ok());
    assert!(string_initializer(true, &TypeKind::Enum(0), None, IntegerKind::Int, 2, reading, Some(int_value(32, false, 3)), 0).is_err());
}

#[test]
fn pointer_constant_truth() {
    assert_eq!(PointerConstant { base: None, offset: 0, nullable: false }.truth(), Some(false));
    assert_eq!(PointerConstant { base: None, offset: 8, nullable: false }.truth(), Some(true));
    assert_eq!(PointerConstant { base: Some(PointerBase::Symbol("x")), offset: 0, nullable: false }.truth(), Some(true));
    assert_eq!(PointerConstant { base: Some(PointerBase::Anonymous(1, 2)), offset: 0, nullable: true }.truth(), None);
}

#[test]
fn small_rules() {
    assert!(require_linked_float_name("__float128", Target::X86_64UnknownLinuxGnu, Compiler::Gnu, 0).is_err());
    assert!(require_linked_float_name("value", Target::X86_64UnknownLinuxGnu, Compiler::Gnu, 0).is_ok());
    assert_eq!(vector_constant_shape(true, 4, 16, 0).unwrap(), 4);
    assert!(vector_constant_shape(true, 0, 0, 0).is_err());
    assert!(vector_constant_shape(true, 8, 32, 0).is_err());
    assert!(vector_constant_shape(false, 4, 16, 0).is_err());
    assert_eq!(declaration_natural_alignment(true, false, false, 8, Compiler::Gnu, Target::X86_64UnknownLinuxGnu), Some(1));
    assert_eq!(declaration_natural_alignment(true, false, false, 8, Compiler::Clang, Target::X86_64UnknownLinuxGnu), Some(4));
    assert_eq!(declaration_natural_alignment(false, true, false, 8, Compiler::Gnu, Target::X86_64UnknownLinuxGnu), Some(8));
    assert_eq!(declaration_natural_alignment(false, false, false, 8, Compiler::Gnu, Target::X86_64UnknownLinuxGnu), None);
}

fn pnode(offset: usize, form: PointerForm) -> Box<PointerNode> {
    Box::new(PointerNode { offset, zero: false, form })
}

fn array_symbol(name: &str, weak: bool) -> Box<PointerNode> {
    pnode(
        1,
        PointerForm::Identifier {
            name: name.to_string(),
            typed: Ok(()),
            array_or_function: Ok(true),
            static_storage: true,
            builtin_reference: Ok(false),
            linked: true,
            weak,
        },
    )
}

#[test]
fn static_addresses_of_symbols_members_and_arithmetic() {
    let symbol = array_symbol("table", false);
    let found = static_pointer(&symbol, false, 64).unwrap().unwrap();
    assert_eq!(found.base, Some(PointerBase::Symbol("table")));
    assert_eq!(found.offset, 0);
    let shifted = PointerNode {
        offset: 0,
        zero: false,
        form: PointerForm::Arithmetic {
            operator: AddressOperator::Plus,
            designator: Ok(true),
            lhs: array_symbol("table", false),
            rhs: pnode(9, PointerForm::Other),
            left_pointer: Ok(true),
            right_typed: Ok(()),
            right_pointer: Ok(false),
            stride: Ok(4),
            index: Ok(IntegerValue::new(3, 32, true, 3)),
        },
    };
    assert_eq!(static_pointer(&shifted, false, 64).unwrap().unwrap().offset, 12);
    let back = PointerNode {
        offset: 0,
        zero: false,
        form: PointerForm::Arithmetic {
            operator: AddressOperator::Minus,
            designator: Ok(true),
            lhs: array_symbol("table", false),
            rhs: pnode(9, PointerForm::Other),
            left_pointer: Ok(true),
            right_typed: Ok(()),
            right_pointer: Ok(false),
            stride: Ok(4),
            index: Ok(IntegerValue::new(1, 32, true, 3)),
        },
    };
    assert_eq!(static_pointer(&back, false, 32).unwrap().unwrap().offset, 0xffff_fffc);
    let member = PointerNode {
        offset: 0,
        zero: false,
        form: PointerForm::Member {
            direct: true,
            designator: Ok(true),
            base: array_symbol("object", false),
            base_typed: Ok(()),
            base_pointer: Ok(false),
            field_offset: Ok(8),
        },
    };
    assert_eq!(static_pointer(&member, false, 64).unwrap().unwrap().offset, 8);
    let absolute = PointerNode {
        offset: 0,
        zero: false,
        form: PointerForm::Cast {
            pointer: Ok(true),
            value: Some(IntegerValue::new(0xffff_ffff, 32, true, 3)),
            operand: pnode(2, PointerForm::Other),
        },
    };
    let address = static_pointer(&absolute, false, 64).unwrap().unwrap();
    assert_eq!((address.base, address.offset), (None, u64::MAX as u128));
    let not_address = pnode(3, PointerForm::Other);
    assert!(static_pointer(&not_address, false, 64).unwrap().is_none());
}

#[test]
fn static_conditionals_need_a_constant_pointer_condition() {
    let weak_condition = PointerNode {
        offset: 5,
        zero: false,
        form: PointerForm::Conditional {
            condition_pointer: Ok(true),
            arithmetic_truth: Ok(false),
            gnu: true,
            condition: array_symbol("hook", true),
            then_expression: Some(array_symbol("hook", true)),
            else_expression: Box::new(PointerNode { offset: 7, zero: true, form: PointerForm::Other }),
        },
    };
    let kept = static_pointer(&weak_condition, false, 64).unwrap().unwrap();
    assert_eq!(kept.base, Some(PointerBase::Symbol("hook")));
    assert!(kept.nullable);
    let clang = PointerNode {
        offset: 5,
        zero: false,
        form: PointerForm::Conditional {
            condition_pointer: Ok(true),
            arithmetic_truth: Ok(false),
            gnu: false,
            condition: array_symbol("hook", true),
            then_expression: Some(array_symbol("hook", true)),
            else_expression: Box::new(PointerNode { offset: 7, zero: true, form: PointerForm::Other }),
        },
    };
    let error = static_pointer(&clang, false, 64).unwrap_err();
    assert_eq!(error.message, "static storage initializer has no constant pointer condition");
    let arithmetic = PointerNode {
        offset: 5,
        zero: false,
        form: PointerForm::Conditional {
            condition_pointer: Ok(false),
            arithmetic_truth: Ok(false),
            gnu: false,
            condition: pnode(6, PointerForm::Other),
            then_expression: Some(array_symbol("a", false)),
            else_expression: Box::new(PointerNode { offset: 7, zero: true, form: PointerForm::Other }),
        },
    };
    let null = static_pointer(&arithmetic, false, 64).unwrap().unwrap();
    assert_eq!((null.base, null.offset), (None, 0));
    let failing = PointerNode { offset: 0, zero: false, form: PointerForm::Selected(Err(Error::new(4, "selection failed"))) };
    assert_eq!(static_pointer(&failing, false, 64).unwrap_err().offset, 4);
}
