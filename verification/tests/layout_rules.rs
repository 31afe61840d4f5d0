use toucan_semantic::ir::{
    Enum, EnumVariant, Field, FloatKind, IntegerKind, IntegerValue, Record, RecordKind, Scope, Type, TypeKind,
    VariableArrayId,
};
use toucan_semantic::layout_rules::{
    alignment_bits, atomic_value_layout, composite_layout_entry, enum_layout_values, float_layout, layout_entry,
    ptr32_layout, record_layout_fields, vector_layout_bits, ActiveRecords, FloatLayout,
};
use toucan_semantic::profile::{Compiler, Target};

#[test]
fn layout_refuses_deep_nesting_and_sizeless_types() {
    assert!(layout_entry(3, &TypeKind::Bool).is_ok());
    assert_eq!(layout_entry(128, &TypeKind::Bool).unwrap_err().message, "record layout nesting exceeds the 128-level limit");
}

#[test]
fn ptr32_has_its_own_layout_only_on_x86_64_windows() {
    assert_eq!(ptr32_layout(Target::X86_64PcWindowsMsvc).unwrap(), Some(32));
    assert_eq!(ptr32_layout(Target::Aarch64PcWindowsMsvc).unwrap(), None);
    assert_eq!(
        ptr32_layout(Target::X86_64UnknownLinuxGnu).unwrap_err().message,
        "__ptr32 pointer ABI is unsupported on this target"
    );
}

#[test]
fn atomic_values_must_be_plain_objects() {
    assert!(atomic_value_layout(false, &TypeKind::Bool).is_ok());
    assert!(atomic_value_layout(true, &TypeKind::Bool).is_err());
    assert_eq!(
        atomic_value_layout(false, &TypeKind::Void).unwrap_err().message,
        "atomic layout requires an unqualified non-atomic object value"
    );
}

#[test]
fn vector_shapes() {
    assert_eq!(vector_layout_bits(true, 4, 32).unwrap(), 128);
    assert_eq!(vector_layout_bits(true, 3, 32).unwrap_err().message, "invalid vector element type or lane count");
    assert_eq!(vector_layout_bits(false, 4, 32).unwrap_err().message, "invalid vector element type or lane count");
    assert_eq!(
        vector_layout_bits(true, 8, 32).unwrap_err().message,
        "vectors larger than 16 bytes require unsupported target-feature configuration"
    );
    assert_eq!(vector_layout_bits(true, 1 << 40, 1 << 40).unwrap_err().message, "vector size overflows");
}

#[test]
fn floating_layouts() {
    assert_eq!(float_layout(FloatKind::BFloat16, Compiler::Clang).unwrap(), FloatLayout::Fixed(16));
    assert_eq!(float_layout(FloatKind::float128(), Compiler::Clang).unwrap(), FloatLayout::Fixed(128));
    assert_eq!(float_layout(FloatKind::float32x(), Compiler::Clang).unwrap(), FloatLayout::Double);
    assert_eq!(float_layout(FloatKind::float64x(), Compiler::Gnu).unwrap(), FloatLayout::LongDouble);
    assert_eq!(
        float_layout(FloatKind::float64x(), Compiler::Clang).unwrap_err().message,
        "_Float64x layout is only defined in the supported GNU profiles"
    );
}

fn record(fields: Option<Vec<Field>>) -> Record {
    Record {
        transparent_union: false,
        name: None,
        scope: Scope::File,
        kind: RecordKind::Struct,
        fields,
        packed: false,
        alignment: None,
        pack: None,
    }
}

#[test]
fn records_met_again_while_laid_out_contain_themselves() {
    let mut active = ActiveRecords::new();
    active.enter(3).unwrap();
    active.enter(5).unwrap();
    assert_eq!(active.enter(3).unwrap_err().message, "record contains itself by value");
    active.leave(3);
    assert!(active.enter(3).is_ok());
}

#[test]
fn incomplete_and_unknown_records_have_no_layout() {
    let field = Field { name: Some("x".to_string()), ty: Type::new(TypeKind::Bool), bit_width: None, alignment: None, packed: false };
    let records = vec![record(None), record(Some(vec![field]))];
    assert_eq!(record_layout_fields(&records, 0).unwrap_err().message, "incomplete record has no layout");
    assert_eq!(record_layout_fields(&records, 1).unwrap().len(), 1);
    assert_eq!(record_layout_fields(&records, 2).unwrap_err().message, "invalid record identity");
    assert_eq!(alignment_bits(Some(16), "alignment overflows").unwrap(), Some(128));
    assert_eq!(alignment_bits(Some(u64::MAX), "pack alignment overflows").unwrap_err().message, "pack alignment overflows");
}

#[test]
fn variable_arrays_functions_and_extended_complex_types_have_no_layout() {
    let vla = TypeKind::VariableArray { element: Box::new(Type::new(TypeKind::Bool)), identity: VariableArrayId(1) };
    assert_eq!(composite_layout_entry(&vla).unwrap_err().message, "variable-length array size requires a runtime bound");
    assert!(composite_layout_entry(&TypeKind::Complex(FloatKind::Double)).is_ok());
    assert_eq!(
        composite_layout_entry(&TypeKind::Complex(FloatKind::BFloat16)).unwrap_err().message,
        "extended complex types are unsupported"
    );
    assert!(composite_layout_entry(&TypeKind::Integer(IntegerKind::Int)).is_ok());
}

#[test]
fn enum_layouts_take_complete_enums_with_representable_values() {
    let variant = |value: u128, signed: bool| EnumVariant {
        name: "E".to_string(),
        value: IntegerValue { value, bits: 128, signed, rank: 6 },
    };
    let complete = Enum { packed: false, name: None, scope: Scope::File, complete: true, variants: vec![variant(u128::MAX, true), variant(7, false)] };
    let incomplete = Enum { packed: false, name: None, scope: Scope::File, complete: false, variants: Vec::new() };
    let too_large = Enum { packed: false, name: None, scope: Scope::File, complete: true, variants: vec![variant(u128::MAX, false)] };
    let enums = vec![complete, incomplete, too_large];
    assert_eq!(enum_layout_values(&enums, 0).unwrap(), vec![-1, 7]);
    assert_eq!(enum_layout_values(&enums, 1).unwrap_err().message, "incomplete enum has no object layout");
    assert_eq!(enum_layout_values(&enums, 2).unwrap_err().message, "enum value exceeds layout support");
    assert_eq!(enum_layout_values(&enums, 3).unwrap_err().message, "invalid enum identity");
}
