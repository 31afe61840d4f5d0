use toucan_semantic::ir::{CallingConvention, FunctionType, IntegerKind, Parameter, Type, TypeKind};
use toucan_semantic::object_values::{charge_type, ObjectValueCharges, PayloadSizes, MAX_BYTES};

const SIZES: PayloadSizes = PayloadSizes { occurrence: 100, ty: 40, function: 64, parameter: 56 };

fn c_int() -> Type {
    Type::new(TypeKind::Integer(IntegerKind::Int))
}

fn callback() -> Type {
    Type::new(TypeKind::Function(Box::new(FunctionType {
        noreturn: false,
        parameter_contracts: None,
        return_type: c_int(),
        parameters: vec![
            Parameter { name: Some("count".to_string()), ty: Type::new(TypeKind::Typedef("size_t".to_string())) },
            Parameter { name: None, ty: c_int().pointer() },
        ],
        variadic: false,
        prototype: true,
        calling_convention: CallingConvention::C,
    })))
    .pointer()
}

#[test]
fn every_owned_type_payload_is_charged() {
    let mut bytes = 0;
    charge_type(&callback(), SIZES, &mut bytes, 0, 3).unwrap();
    // Pointer, function, its return type, the named `size_t` parameter and
    // the unnamed pointer parameter with its pointee.
    let expected = 40 + 40 + 64 + 40 + (56 + 5) + (40 + 6) + 56 + (40 + 40);
    assert_eq!(bytes, expected);
}

#[test]
fn deep_types_and_large_totals_are_refused() {
    let mut deep = c_int();
    for _ in 0..128 {
        deep = deep.pointer();
    }
    let mut bytes = 0;
    let e = charge_type(&deep, SIZES, &mut bytes, 0, 9).unwrap_err();
    assert_eq!((e.offset, e.message.as_str()), (9, "object-value type nesting exceeds the 128-level limit"));
    let mut bytes = MAX_BYTES - 10;
    let e = charge_type(&c_int(), SIZES, &mut bytes, 0, 9).unwrap_err();
    assert_eq!(e.message, "object-value metadata exceeds the 64 MiB limit");
}

#[test]
fn occurrences_charge_their_record_name_and_type_all_or_nothing() {
    let mut charges = ObjectValueCharges::new();
    charges.charge(&c_int(), "value", SIZES, 0).unwrap();
    charges.record();
    assert_eq!(charges.bytes(), 100 + 5 + 40);
    assert_eq!(charges.entries(), 1);
    charges.copy_written_type(&c_int(), SIZES, 0).unwrap();
    assert_eq!(charges.bytes(), 185);
    let before = charges.bytes();
    assert!(charges.charge_literal(MAX_BYTES, 4).is_err());
    assert_eq!(charges.bytes(), before);
    charges.charge_literal(15, 4).unwrap();
    assert_eq!(charges.bytes(), 200);
}
