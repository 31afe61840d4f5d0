use toucan_semantic::floats::{common_kind, FloatLiteralFormat, literal_kind};
use toucan_semantic::integer::{
    binary, cast_integer, conditional, eval, is_integer_constant_expression, offsetof_index, promote, size_of, unary,
    BinaryOperator, ConstantForm, ConstantNode, SizeClass, UnaryOperator, ValueForm, ValueNode,
};
use toucan_semantic::Error;
use toucan_semantic::ir::{FloatKind, IntegerKind, IntegerValue};
use toucan_semantic::lexical_tags::{LexicalTag, TagLexicalOrigins};
use toucan_semantic::literals::{
    decode_character_literal_with_profile, decode_string_literals_with_profile, CharacterProfile, StringEncoding,
};
use toucan_semantic::object_alignment::DeclarationAlignment;
use toucan_semantic::overflow::{
    calculate, combine, overflow_signature, OperandClass, OverflowForm, OverflowIntrinsic, OverflowOperation, OverflowResultOperand,
};
use toucan_semantic::parser_extensions::adapt;
use toucan_semantic::profile::{Compiler, Target};
use toucan_semantic::statement::{check_break, check_continue, SwitchContext};
use toucan_semantic::text::{split_at_commas, trimmed};

fn linux_gnu() -> CharacterProfile {
    CharacterProfile { target: Target::X86_64UnknownLinuxGnu, compiler: Compiler::Gnu, char_signed: true, wchar_width: 32, wchar_signed: true }
}

fn int32(value: i128) -> IntegerValue {
    IntegerValue::from_int(value)
}

fn unsigned(value: u128) -> IntegerValue {
    IntegerValue::new(value, 32, false, 3)
}

#[test]
fn overflow_arithmetic_is_exact_then_truncated() {
    let (value, overflow) = calculate(OverflowOperation::Add, int32(i32::MAX as i128), int32(1), 32, true);
    assert_eq!(value, 0x8000_0000);
    assert!(overflow);
    let (value, overflow) = calculate(OverflowOperation::Subtract, unsigned(0), unsigned(1), 32, false);
    assert_eq!(value, 0xffff_ffff);
    assert!(overflow);
    let (value, overflow) = calculate(OverflowOperation::Multiply, int32(-3), int32(5), 32, true);
    assert_eq!(value, (-15i32) as u32 as u128);
    assert!(!overflow);
    let (value, overflow) = calculate(OverflowOperation::Multiply, int32(16), int32(16), 8, false);
    assert_eq!(value, 0);
    assert!(overflow);
    // A one-bit Boolean result holds 0 and 1.
    assert!(!calculate(OverflowOperation::Add, int32(0), int32(1), 1, false).1);
    assert!(calculate(OverflowOperation::Add, int32(1), int32(1), 1, false).1);
}

#[test]
fn overflow_intrinsics_by_name() {
    let add = OverflowIntrinsic::from_name("__builtin_add_overflow").unwrap();
    assert_eq!(add.operation(), OverflowOperation::Add);
    assert_eq!(add.form(), OverflowForm::GenericStore);
    let typed = OverflowIntrinsic::from_name("__builtin_umulll_overflow").unwrap();
    assert_eq!(typed.operation(), OverflowOperation::Multiply);
    assert_eq!(typed.form(), OverflowForm::TypedStore(IntegerKind::UnsignedLongLong));
    let predicate = OverflowIntrinsic::from_name("__builtin_sub_overflow_p").unwrap();
    assert!(predicate.is_predicate());
    assert!(OverflowIntrinsic::from_name("__builtin_addl_overflow").is_none());
    assert!(OverflowIntrinsic::from_name("__builtin_overflow").is_none());
    assert_eq!(combine(Some(false), Some(true)), Some(true));
    assert_eq!(combine(Some(false), None), None);
    assert_eq!(combine(Some(false), Some(false)), Some(false));
}

#[test]
fn string_literals_decode_escapes_and_concatenate() {
    let decoded = decode_string_literals_with_profile(&["\"a\\n\\x41\"".to_string(), "\"\\101\"".to_string()], linux_gnu(), 0).unwrap();
    assert_eq!(decoded.encoding, StringEncoding::Ordinary);
    assert_eq!(decoded.code_units, vec![0x61, 0x0a, 0x41, 0x41, 0]);
    assert_eq!(decoded.to_bytes().unwrap(), vec![0x61, 0x0a, 0x41, 0x41, 0]);
    let utf8 = decode_string_literals_with_profile(&["\"é\"".to_string()], linux_gnu(), 0).unwrap();
    assert_eq!(utf8.code_units, vec![0xc3, 0xa9, 0]);
    let wide = decode_string_literals_with_profile(&["L\"x\"".to_string(), "\"\\u00e9\"".to_string()], linux_gnu(), 0).unwrap();
    assert_eq!(wide.encoding, StringEncoding::Wide);
    assert_eq!(wide.element_type, IntegerKind::Int);
    assert_eq!(wide.code_units, vec![0x78, 0xe9, 0]);
    assert!(wide.to_bytes().is_none());
    let utf16 = decode_string_literals_with_profile(&["u\"\\U0001F600\"".to_string()], linux_gnu(), 0).unwrap();
    assert_eq!(utf16.code_units, vec![0xd83d, 0xde00, 0]);
    assert!(decode_string_literals_with_profile(&["u\"a\"".to_string(), "L\"b\"".to_string()], linux_gnu(), 0).is_err());
    assert!(decode_string_literals_with_profile(&["\"\\q\"".to_string()], linux_gnu(), 0).is_err());
    assert!(decode_string_literals_with_profile(&["\"\\x100\"".to_string()], linux_gnu(), 0).is_err());
    assert!(decode_string_literals_with_profile(&[], linux_gnu(), 0).is_err());
    assert!(decode_string_literals_with_profile(&["abc".to_string()], linux_gnu(), 0).is_err());
}

#[test]
fn character_literals_follow_the_profile() {
    assert_eq!(decode_character_literal_with_profile("'a'", linux_gnu(), 0).unwrap().signed_value(), 97);
    assert_eq!(decode_character_literal_with_profile("'\\xff'", linux_gnu(), 0).unwrap().signed_value(), -1);
    let mut unsigned_char = linux_gnu();
    unsigned_char.char_signed = false;
    assert_eq!(decode_character_literal_with_profile("'\\xff'", unsigned_char, 0).unwrap().signed_value(), 255);
    assert_eq!(decode_character_literal_with_profile("'ab'", linux_gnu(), 0).unwrap().signed_value(), 0x6162);
    assert!(decode_character_literal_with_profile("''", linux_gnu(), 0).is_err());
    assert!(decode_character_literal_with_profile("u8'a'", linux_gnu(), 0).is_err());
    let wide = decode_character_literal_with_profile("L'ab'", linux_gnu(), 0).unwrap();
    assert_eq!(wide.value, 0x62);
    let mut clang = linux_gnu();
    clang.compiler = Compiler::Clang;
    assert!(decode_character_literal_with_profile("L'ab'", clang, 0).is_err());
}

#[test]
fn switch_case_ranges_must_not_overlap() {
    let mut switch = SwitchContext::new(int32(0), None);
    switch.case_range(int32(1), int32(1), None, 10).unwrap();
    switch.case_range(int32(5), int32(9), None, 20).unwrap();
    let error = switch.case_range(int32(3), int32(5), None, 30).unwrap_err();
    assert_eq!(error.offset, 30);
    assert_eq!(error.message, "duplicate or overlapping switch cases");
    switch.case_range(int32(-4), int32(0), None, 40).unwrap();
    assert!(switch.case_range(int32(9), int32(2), None, 50).is_err());
    assert!(switch.case_range(int32(100), int32(100), Some(3), 60).is_err());
    switch.default_label(None, 70).unwrap();
    assert_eq!(switch.default_label(None, 80).unwrap_err().message, "duplicate default label");
    // Case values convert to the switch type: 2^32 + 1 is 1 in a 32-bit switch.
    let mut wide = SwitchContext::new(int32(0), None);
    wide.case_range(int32(1), int32(1), None, 0).unwrap();
    assert!(wide.case_range(IntegerValue::new((1u128 << 32) + 1, 64, true, 4), IntegerValue::new((1u128 << 32) + 1, 64, true, 4), None, 0).is_err());
    assert!(check_break(0, 1, 0).is_ok());
    assert!(check_break(0, 0, 0).is_err());
    assert!(check_continue(0, 0).is_err());
    assert!(check_continue(2, 0).is_ok());
}

#[test]
fn integer_constant_arithmetic() {
    let sum = binary(BinaryOperator::Plus, int32(2), int32(3), 0).unwrap();
    assert_eq!(sum.signed_value(), 5);
    assert!(binary(BinaryOperator::Plus, int32(i32::MAX as i128), int32(1), 0).is_err());
    let wrapped = binary(BinaryOperator::Plus, unsigned(u32::MAX as u128), unsigned(1), 0).unwrap();
    assert_eq!(wrapped.value, 0);
    assert_eq!(binary(BinaryOperator::Divide, int32(-7), int32(2), 0).unwrap().signed_value(), -3);
    assert_eq!(binary(BinaryOperator::Modulo, int32(-7), int32(2), 0).unwrap().signed_value(), -1);
    assert!(binary(BinaryOperator::Divide, int32(1), int32(0), 0).is_err());
    // -1 < 0u compares as unsigned.
    assert_eq!(binary(BinaryOperator::Less, int32(-1), unsigned(0), 0).unwrap().value, 0);
    assert_eq!(binary(BinaryOperator::Less, int32(-1), int32(0), 0).unwrap().value, 1);
    assert!(binary(BinaryOperator::ShiftLeft, int32(1), int32(31), 0).is_err());
    assert_eq!(binary(BinaryOperator::ShiftLeft, unsigned(1), int32(31), 0).unwrap().value, 0x8000_0000);
    assert!(binary(BinaryOperator::ShiftLeft, int32(1), int32(32), 0).is_err());
    assert_eq!(binary(BinaryOperator::ShiftRight, int32(-8), int32(1), 0).unwrap().signed_value(), -4);
    let char_value = IntegerValue::new(0xff, 8, true, 1);
    let promoted = promote(char_value);
    assert_eq!(promoted.bits, 32);
    assert_eq!(promoted.signed_value(), -1);
}

#[test]
fn adapters_insert_empty_initializers_and_reorder_attributes() {
    let adapted = adapt(b"x = (int){ };", |_| Ok(())).unwrap();
    assert_eq!(adapted.source, b"x = (int){ {}};".to_vec());
    assert_eq!(adapted.empty_initializers, vec![11]);
    assert_eq!(adapted.offsets.original_offset(11), 11);
    assert_eq!(adapted.offsets.original_offset(12), 11);
    assert_eq!(adapted.offsets.original_offset(13), 11);
    assert_eq!(adapted.offsets.original_offset(14), 12);
    assert_eq!(adapted.offsets.pragma_offset(11), 13);
    assert_eq!(adapted.offsets.pragma_offset(3), 3);

    let reordered = adapt(b"int (__attribute__((x)) *p);", |_| Ok(())).unwrap();
    assert_eq!(reordered.source, b"int (*__attribute__((x)) p);".to_vec());
    assert!(reordered.empty_initializers.is_empty());
    // A quoted brace pair is left alone.
    let quoted = adapt(b"f(\"){}\")", |_| Ok(())).unwrap();
    assert_eq!(quoted.source, b"f(\"){}\")".to_vec());
    let refused = adapt(b"asm volatile(\"\")", |offset| {
        Err(toucan_semantic::Error { message: "asm".to_string(), offset })
    });
    assert_eq!(refused.unwrap_err().offset, 3);
    let compound = adapt(b"(int){}", |_| Ok(())).unwrap();
    assert_eq!(compound.source, b"(int){{}}".to_vec());
    assert_eq!(compound.empty_initializers, vec![6]);
    assert_eq!(compound.offsets.original_offset(8), 6);
    assert_eq!(compound.offsets.insertions, vec![6]);
    let runs: Vec<(usize, usize, bool)> =
        compound.offsets.segments.iter().map(|s| (s.parsed, s.original, s.copied)).collect();
    assert_eq!(runs, vec![(0, 0, true), (6, 6, false), (8, 6, true), (9, 7, true)]);
}

#[test]
fn common_type_prefers_unsigned_of_higher_rank() {
    let long_long = IntegerValue::new(0, 64, true, 5);
    let unsigned_long = IntegerValue::new(0, 64, false, 4);
    assert_eq!(toucan_semantic::integer::common(long_long, unsigned_long), IntegerValue::new(0, 64, false, 5));
}

#[test]
fn floating_types_and_literals() {
    let float = Some(FloatKind::Float);
    let double = Some(FloatKind::Double);
    assert_eq!(common_kind(float, double, 0).unwrap(), double);
    assert_eq!(common_kind(double, float, 0).unwrap(), double);
    assert_eq!(common_kind(None, float, 0).unwrap(), float);
    assert_eq!(common_kind(None, None, 0).unwrap(), None);
    assert_eq!(literal_kind(FloatLiteralFormat::Double, Target::X86_64UnknownLinuxGnu, Compiler::Gnu, 0).unwrap(), FloatKind::Double);
    assert_eq!(literal_kind(FloatLiteralFormat::LongDouble, Target::X86_64UnknownLinuxGnu, Compiler::Gnu, 0).unwrap(), FloatKind::LongDouble);
}

#[test]
fn declaration_alignments_combine_by_maximum() {
    let a = DeclarationAlignment::new(Some(8), None).unwrap();
    let b = DeclarationAlignment::new(Some(16), Some(4)).unwrap();
    let c = a.combined(b);
    assert_eq!(c.gnu(), Some(16));
    assert_eq!(c.c11(), Some(4));
    assert!(DeclarationAlignment::new(Some(3), None).is_err());
    assert!(DeclarationAlignment::empty().is_empty());
    let msvc = DeclarationAlignment::empty().with_msvc(32).unwrap();
    assert_eq!(msvc.msvc(), Some(32));
    assert!(DeclarationAlignment::empty().with_msvc(1 << 14).is_err());
}

#[test]
fn lexical_tag_origins() {
    let mut origins = TagLexicalOrigins::new();
    assert!(origins.is_empty());
    origins.note(LexicalTag::Record(3), true, true, false, false, 5, false, Some(1)).unwrap();
    assert_eq!(origins.records.get(&3).unwrap().record, Some(1));
    // A named definition outside any record needs no entry.
    origins.note(LexicalTag::Record(3), false, true, false, false, 9, true, None).unwrap();
    assert!(origins.records.get(&3).is_none());
    origins.note(LexicalTag::Enum(2), true, true, false, true, 12, true, None).unwrap();
    assert!(!origins.enums.get(&2).unwrap().prior_file_declaration);
    // A completed tag keeps what it has.
    origins.note(LexicalTag::Enum(2), false, true, true, true, 20, true, Some(4)).unwrap();
    assert_eq!(origins.enums.get(&2).unwrap().order, 12);
}

#[test]
fn text_helpers() {
    let text: Vec<char> = " \u{3000}sse2 \t".chars().collect();
    assert_eq!(trimmed(&text), vec!['s', 's', 'e', '2']);
    let parts = split_at_commas(&"a,,b".chars().collect::<Vec<_>>());
    assert_eq!(parts, vec![vec!['a'], vec![], vec!['b']]);
}

#[test]
fn unary_operators_and_casts() {
    assert_eq!(unary(UnaryOperator::Minus, int32(5), 0).unwrap().signed_value(), -5);
    assert!(unary(UnaryOperator::Minus, int32(i32::MIN as i128), 0).is_err());
    assert_eq!(unary(UnaryOperator::Minus, unsigned(1), 0).unwrap().value, 0xffff_ffff);
    assert_eq!(unary(UnaryOperator::Complement, int32(0), 0).unwrap().signed_value(), -1);
    assert_eq!(unary(UnaryOperator::Complement, unsigned(0xf0), 0).unwrap().value, 0xffff_ff0f);
    assert_eq!(unary(UnaryOperator::Negate, int32(7), 0).unwrap().value, 0);
    assert_eq!(unary(UnaryOperator::Negate, int32(0), 0).unwrap().value, 1);
    // The arithmetic operators promote a char operand to int.
    let char_value = IntegerValue::new(0x80, 8, true, 1);
    let negated = unary(UnaryOperator::Minus, char_value, 0).unwrap();
    assert_eq!((negated.bits, negated.signed_value()), (32, 128));
    assert_eq!(unary(UnaryOperator::Imaginary, int32(9), 0).unwrap().value, 0);
    assert_eq!(unary(UnaryOperator::Real, int32(9), 0).unwrap().value, 9);
    assert!(unary(UnaryOperator::Address, int32(9), 0).is_err());
    let to_bool = cast_integer(int32(256), IntegerValue::new(0, 8, false, 0), true);
    assert_eq!(to_bool.value, 1);
    let to_char = cast_integer(int32(256), IntegerValue::new(0, 8, false, 1), false);
    assert_eq!(to_char.value, 0);
    let chosen = conditional(int32(0), Some(int32(1)), unsigned(2), int32(0), unsigned(0));
    assert_eq!((chosen.value, chosen.signed), (2, false));
    let elvis = conditional(int32(-1), None, int32(3), int32(0), int32(0));
    assert_eq!(elvis.signed_value(), -1);
}

#[test]
fn sizeof_and_offsetof_values() {
    assert_eq!(size_of(false, SizeClass::Object, 24, 64, 64, 0).unwrap().value, 24);
    assert_eq!(size_of(false, SizeClass::VoidOrFunction, 0, 64, 64, 0).unwrap().value, 1);
    assert!(size_of(false, SizeClass::IncompleteArray, 0, 64, 64, 0).is_err());
    assert!(size_of(true, SizeClass::Object, 8, 64, 64, 0).is_err());
    assert_eq!(size_of(false, SizeClass::Object, 8, 32, 32, 0).unwrap().bits, 32);
    assert_eq!(offsetof_index(8, 3, 4, 0).unwrap(), 20);
    assert!(offsetof_index(0, u64::MAX, 2, 0).is_err());
    assert!(offsetof_index(u64::MAX, 1, 1, 0).is_err());
}

fn int_result_pointer() -> OverflowResultOperand {
    OverflowResultOperand { pointer: true, pointee_const: false, class: OperandClass::Integer, reading: Some(int32(0)), bitfield: None }
}

#[test]
fn overflow_signature_reads_result_type() {
    let add = OverflowIntrinsic::from_name("__builtin_add_overflow").unwrap();
    let result = int_result_pointer();
    assert_eq!(overflow_signature(add, true, 3, Some(int32(1)), Some(int32(2)), result, true, 64, 0).ok(), Some((32, true)));
    assert!(overflow_signature(add, true, 2, Some(int32(1)), Some(int32(2)), result, true, 64, 0).is_err());
    assert!(overflow_signature(add, true, 3, None, Some(int32(2)), result, true, 64, 0).is_err());
    let constant = OverflowResultOperand { pointee_const: true, ..result };
    assert!(overflow_signature(add, true, 3, Some(int32(1)), Some(int32(2)), constant, true, 64, 0).is_err());
    let boolean = OverflowResultOperand { class: OperandClass::Bool, reading: Some(IntegerValue::new(0, 8, false, 0)), ..result };
    assert!(overflow_signature(add, true, 3, Some(int32(1)), Some(int32(2)), boolean, true, 64, 0).is_err());
    assert_eq!(overflow_signature(add, false, 3, Some(int32(1)), Some(int32(2)), boolean, true, 64, 0).ok(), Some((1, false)));
}

#[test]
fn overflow_signature_typed_and_predicate_forms() {
    let typed = OverflowIntrinsic::from_name("__builtin_umulll_overflow").unwrap();
    let result = int_result_pointer();
    assert_eq!(overflow_signature(typed, false, 3, None, None, result, true, 64, 0).ok(), Some((64, false)));
    let predicate = OverflowIntrinsic::from_name("__builtin_sub_overflow_p").unwrap();
    let expression = OverflowResultOperand { pointer: false, pointee_const: false, class: OperandClass::Integer, reading: Some(int32(0)), bitfield: Some(5) };
    assert_eq!(overflow_signature(predicate, true, 3, Some(int32(1)), Some(int32(2)), expression, true, 64, 0).ok(), Some((5, true)));
    assert!(overflow_signature(predicate, false, 3, Some(int32(1)), Some(int32(2)), expression, true, 64, 0).is_err());
    let wide = OverflowResultOperand { bitfield: Some(40), ..expression };
    assert!(overflow_signature(predicate, true, 3, Some(int32(1)), Some(int32(2)), wide, true, 64, 0).is_err());
    let enumeration = OverflowResultOperand { class: OperandClass::Enum, bitfield: None, ..expression };
    assert!(overflow_signature(predicate, true, 3, Some(int32(1)), Some(int32(2)), enumeration, true, 64, 0).is_err());
}

fn node(form: ConstantForm) -> ConstantNode {
    ConstantNode { offset: 3, form }
}

fn boxed(form: ConstantForm) -> Box<ConstantNode> {
    Box::new(node(form))
}

#[test]
fn integer_constant_expressions_follow_the_c_rule() {
    let one = || boxed(ConstantForm::Constant { floating: false });
    let sum = node(ConstantForm::Binary { arithmetic: true, lhs: one(), rhs: one() });
    assert!(is_integer_constant_expression(&sum, 0).unwrap());
    let assignment = node(ConstantForm::Binary { arithmetic: false, lhs: one(), rhs: one() });
    assert!(!is_integer_constant_expression(&assignment, 0).unwrap());
    let floating = node(ConstantForm::Constant { floating: true });
    assert!(!is_integer_constant_expression(&floating, 0).unwrap());
    let cast_of_float = node(ConstantForm::Cast {
        integer: Ok(true),
        null_offset: Ok(false),
        real_floating_literal: true,
        operand: boxed(ConstantForm::Constant { floating: true }),
    });
    assert!(is_integer_constant_expression(&cast_of_float, 0).unwrap());
    let cast_to_pointer = node(ConstantForm::Cast {
        integer: Ok(false),
        null_offset: Err(Error::new(9, "not consulted")),
        real_floating_literal: false,
        operand: one(),
    });
    assert!(!is_integer_constant_expression(&cast_to_pointer, 0).unwrap());
    let vla = node(ConstantForm::SizeOfType { variable_length: Ok(true) });
    assert!(!is_integer_constant_expression(&vla, 0).unwrap());
    let omitted = node(ConstantForm::Conditional { condition: one(), then_expression: None, else_expression: one() });
    assert!(is_integer_constant_expression(&omitted, 0).unwrap());
    let offsets = node(ConstantForm::OffsetOf {
        indexes: vec![node(ConstantForm::Identifier { enumerator: true }), node(ConstantForm::Other)],
    });
    assert!(!is_integer_constant_expression(&offsets, 0).unwrap());
    let failing = node(ConstantForm::Selected { selected: Err(Error::new(7, "selection failed")) });
    assert_eq!(is_integer_constant_expression(&failing, 0).unwrap_err().offset, 7);
    let deep = node(ConstantForm::Unary { arithmetic: true, operand: one() });
    let error = is_integer_constant_expression(&deep, 128).unwrap_err();
    assert_eq!(error.message, "constant expression nesting exceeds the 128-level limit");
    assert_eq!(error.offset, 3);
}

fn value(form: ValueForm) -> Box<ValueNode> {
    Box::new(ValueNode { offset: 5, form })
}

fn literal(v: i128) -> Box<ValueNode> {
    value(ValueForm::Literal(Ok(int32(v))))
}

#[test]
fn constant_evaluation_composes_the_integer_rules() {
    let sum = ValueNode {
        offset: 0,
        form: ValueForm::Binary { operator: BinaryOperator::Plus, lhs: literal(2), rhs: literal(40), rhs_scalar: Ok(()) },
    };
    assert_eq!(eval(&sum).unwrap().signed_value(), 42);
    let overflow = ValueNode {
        offset: 0,
        form: ValueForm::Binary {
            operator: BinaryOperator::Plus,
            lhs: literal(i32::MAX as i128),
            rhs: literal(1),
            rhs_scalar: Ok(()),
        },
    };
    assert!(eval(&overflow).is_err());
    let short_circuit = ValueNode {
        offset: 0,
        form: ValueForm::Binary {
            operator: BinaryOperator::LogicalAnd,
            lhs: literal(0),
            rhs: value(ValueForm::Floating),
            rhs_scalar: Ok(()),
        },
    };
    assert_eq!(eval(&short_circuit).unwrap().signed_value(), 0);
    let unchecked = ValueNode {
        offset: 0,
        form: ValueForm::Binary {
            operator: BinaryOperator::LogicalOr,
            lhs: literal(1),
            rhs: literal(0),
            rhs_scalar: Err(Error::new(11, "operand requires a scalar type")),
        },
    };
    assert_eq!(eval(&unchecked).unwrap_err().offset, 11);
    let negated = ValueNode { offset: 0, form: ValueForm::Unary { operator: UnaryOperator::Minus, operand: literal(7) } };
    assert_eq!(eval(&negated).unwrap().signed_value(), -7);
    let to_bool = ValueNode {
        offset: 0,
        form: ValueForm::Cast {
            destination: Ok(IntegerValue::new(0, 8, false, 0)),
            to_bool: true,
            floating_literal: None,
            null_offset: Ok(None),
            operand: literal(256),
        },
    };
    assert_eq!(eval(&to_bool).unwrap().value, 1);
    let to_char = ValueNode {
        offset: 0,
        form: ValueForm::Cast {
            destination: Ok(IntegerValue::new(0, 8, true, 1)),
            to_bool: false,
            floating_literal: None,
            null_offset: Ok(None),
            operand: literal(300),
        },
    };
    assert_eq!(eval(&to_char).unwrap().value, 44);
    let omitted = ValueNode {
        offset: 0,
        form: ValueForm::Conditional {
            then_type: Ok(int32(0)),
            else_type: Ok(unsigned(0)),
            condition: literal(-1),
            then_expression: None,
            else_expression: value(ValueForm::Floating),
        },
    };
    let chosen = eval(&omitted).unwrap();
    assert_eq!((chosen.value, chosen.signed), (0xffff_ffff, false));
    let unknown = ValueNode { offset: 9, form: ValueForm::Identifier { name: "missing".to_string(), value: None } };
    let e = eval(&unknown).unwrap_err();
    assert_eq!(e.offset, 9);
    assert_eq!(e.message, "`missing` is not an integer constant");
}

#[test]
fn constant_evaluation_errors_name_the_rule_and_offset() {
    let division = ValueNode {
        offset: 12,
        form: ValueForm::Binary { operator: BinaryOperator::Divide, lhs: literal(1), rhs: literal(0), rhs_scalar: Ok(()) },
    };
    let e = eval(&division).unwrap_err();
    assert_eq!(e.offset, 12);
    assert_eq!(e.message, "division by zero in constant expression");
    let overflow = ValueNode {
        offset: 3,
        form: ValueForm::Binary {
            operator: BinaryOperator::Plus,
            lhs: literal(i32::MAX as i128),
            rhs: literal(1),
            rhs_scalar: Ok(()),
        },
    };
    assert_eq!(eval(&overflow).unwrap_err().message, "signed integer overflow");
    let shift = ValueNode {
        offset: 4,
        form: ValueForm::Binary { operator: BinaryOperator::ShiftLeft, lhs: literal(1), rhs: literal(40), rhs_scalar: Ok(()) },
    };
    assert_eq!(eval(&shift).unwrap_err().message, "shift count exceeds integer width");
    let floating = ValueNode { offset: 8, form: ValueForm::Floating };
    assert_eq!(eval(&floating).unwrap_err().message, "floating-point expression is not an integer constant expression");
}
