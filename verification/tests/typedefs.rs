use toucan_semantic::ir::{
    CallingConvention, FunctionType, IntegerKind, Parameter, Qualifiers, Record, RecordKind, Scope, Type, TypeKind,
    VariableArrayId,
};
use toucan_semantic::type_alignment::{AlignmentOrigin, AlignmentOriginId, AlignmentOriginKind, TypeAlignment};
use toucan_semantic::noescape::{validate_parameter_contracts, ParameterContracts, ParameterContractsId};
use toucan_semantic::typedefs::{
    is_variable_length_array, is_variably_modified, qualifiers, resolve, transparent_union, typedef_alignment,
    typedef_alignment_metadata,
};

fn c_int() -> Type {
    Type::new(TypeKind::Integer(IntegerKind::Int))
}

fn named(name: &str) -> Type {
    Type::new(TypeKind::Typedef(name.to_string()))
}

fn vla(element: Type) -> Type {
    Type::new(TypeKind::VariableArray { element: Box::new(element), identity: VariableArrayId(3) })
}

fn array(element: Type, length: Option<u64>) -> Type {
    Type::new(TypeKind::Array { element: Box::new(element), length })
}

fn function(return_type: Type, parameters: Vec<Type>, contracts: Option<ParameterContractsId>) -> Type {
    Type::new(TypeKind::Function(Box::new(FunctionType {
        noreturn: false,
        parameter_contracts: contracts,
        return_type,
        parameters: parameters.into_iter().map(|ty| Parameter { name: None, ty }).collect(),
        variadic: false,
        prototype: true,
        calling_convention: CallingConvention::C,
    })))
}

#[test]
fn resolve_follows_names_and_refuses_cycles() {
    let mut constant = named("I");
    constant.qualifiers = Qualifiers::none().with_const();
    let typedefs = vec![
        ("I".to_string(), c_int()),
        ("CI".to_string(), constant),
        ("A".to_string(), named("B")),
        ("B".to_string(), named("A")),
    ];
    let spelled = named("CI");
    let resolved = resolve(&typedefs, &spelled).unwrap();
    assert!(matches!(resolved.kind, TypeKind::Integer(IntegerKind::Int)));
    assert_eq!(resolve(&typedefs, &named("A")).unwrap_err().message, "cyclic typedef");
    assert_eq!(resolve(&typedefs, &named("missing")).unwrap_err().message, "unknown typedef `missing`");
    let plain = c_int();
    assert!(std::ptr::eq(resolve(&typedefs, &plain).unwrap(), &plain));
}

#[test]
fn resolve_stops_after_128_names() {
    let mut typedefs: Vec<(String, Type)> = (0..128).map(|i| (format!("T{i}"), named(&format!("T{}", i + 1)))).collect();
    typedefs.push(("T128".to_string(), c_int()));
    assert_eq!(resolve(&typedefs, &named("T0")).unwrap_err().message, "typedef resolution exceeds the 128-level limit");
    assert!(resolve(&typedefs, &named("T1")).is_ok());
}

#[test]
fn qualifiers_gather_along_the_chain() {
    let mut volatile_int = c_int();
    volatile_int.qualifiers.is_volatile = true;
    let mut constant = named("V");
    constant.qualifiers = Qualifiers::none().with_const();
    let typedefs = vec![("V".to_string(), volatile_int), ("CV".to_string(), constant)];
    let gathered = qualifiers(&typedefs, &named("CV")).unwrap();
    assert!(gathered.is_const && gathered.is_volatile && !gathered.is_restrict);
    assert!(qualifiers(&typedefs, &c_int()).unwrap().is_none());
    assert!(qualifiers(&typedefs, &named("missing")).is_err());
}

#[test]
fn variable_length_arrays_and_variably_modified_types() {
    let typedefs = vec![("Row".to_string(), vla(c_int()))];
    let matrix = array(named("Row"), Some(4));
    assert!(is_variable_length_array(&typedefs, &matrix).unwrap());
    assert!(!is_variable_length_array(&typedefs, &array(c_int(), Some(4))).unwrap());
    let pointer = named("Row").pointer();
    assert!(!is_variable_length_array(&typedefs, &pointer).unwrap());
    assert!(is_variably_modified(&typedefs, &pointer).unwrap());
    let returns_pointer = function(named("Row").pointer(), vec![], None);
    assert!(is_variably_modified(&typedefs, &returns_pointer).unwrap());
    let takes_vla = function(c_int(), vec![vla(c_int()).pointer()], None);
    assert!(!is_variably_modified(&typedefs, &takes_vla).unwrap());
}

#[test]
fn parameter_contracts_need_pointer_parameters_of_clang_prototypes() {
    let typedefs = vec![("P".to_string(), c_int().pointer())];
    let contracts = vec![ParameterContracts { no_escape: vec![1] }];
    let id = ParameterContractsId::new(0);
    let good = function(c_int(), vec![c_int(), named("P")], id);
    assert!(validate_parameter_contracts(true, &contracts, &typedefs, &[good], &[]).is_ok());
    let good = function(c_int(), vec![c_int(), named("P")], id);
    assert!(validate_parameter_contracts(false, &contracts, &typedefs, &[good], &[]).is_err());
    let not_pointer = function(c_int(), vec![c_int(), c_int()], id);
    assert!(validate_parameter_contracts(true, &contracts, &typedefs, &[], &[not_pointer]).is_err());
    let too_short = function(c_int(), vec![c_int().pointer()], id);
    assert!(validate_parameter_contracts(true, &contracts, &typedefs, &[too_short.pointer()], &[]).is_err());
    let unsorted = vec![ParameterContracts { no_escape: vec![1, 0] }];
    assert!(validate_parameter_contracts(true, &unsorted, &typedefs, &[], &[]).is_err());
    let nested = function(c_int(), vec![function(c_int(), vec![c_int(), c_int()], id).pointer()], None);
    let bad_typedefs = vec![("F".to_string(), nested)];
    assert!(validate_parameter_contracts(true, &contracts, &bad_typedefs, &[], &[]).is_err());
}

fn aligned(mut ty: Type, bytes: u32) -> Type {
    ty.alignment = TypeAlignment::new(bytes).unwrap();
    ty
}

#[test]
fn outermost_typedef_alignment_wins() {
    let typedefs = vec![
        ("A8".to_string(), aligned(c_int(), 8)),
        ("A16".to_string(), aligned(named("A8"), 16)),
        ("Plain".to_string(), named("A8")),
    ];
    let origins: Vec<AlignmentOrigin> = Vec::new();
    assert_eq!(typedef_alignment(&typedefs, &origins, &named("A16")).unwrap(), Some(16));
    assert_eq!(typedef_alignment(&typedefs, &origins, &named("Plain")).unwrap(), Some(8));
    assert_eq!(typedef_alignment(&typedefs, &origins, &c_int()).unwrap(), None);
    assert!(typedef_alignment(&typedefs, &origins, &named("missing")).is_err());
}

#[test]
fn alignment_snapshots_must_agree_with_their_origin() {
    let origin = AlignmentOriginId::new(0).unwrap();
    let origins = vec![AlignmentOrigin { kind: AlignmentOriginKind::TypeOfType, parent: None, alignment: Some(8) }];
    let typedefs: Vec<(String, Type)> = Vec::new();
    let agreeing = aligned(c_int(), 8);
    let mut agreeing = agreeing;
    agreeing.alignment = agreeing.alignment.with_origin(origin);
    let metadata = typedef_alignment_metadata(&typedefs, &origins, &agreeing).unwrap();
    assert_eq!(metadata.bytes(), Some(8));
    assert!(metadata.origin().is_some());
    let mut disagreeing = aligned(c_int(), 4);
    disagreeing.alignment = disagreeing.alignment.with_origin(origin);
    assert!(typedef_alignment_metadata(&typedefs, &origins, &disagreeing).is_err());
}

fn union_record(transparent: bool, kind: RecordKind) -> Record {
    Record {
        transparent_union: transparent,
        name: None,
        scope: Scope::File,
        kind,
        fields: Some(Vec::new()),
        packed: false,
        alignment: None,
        pack: None,
    }
}

#[test]
fn transparent_unions_through_typedefs() {
    let records = vec![
        union_record(true, RecordKind::Union),
        union_record(false, RecordKind::Union),
        union_record(true, RecordKind::Struct),
    ];
    let typedefs = vec![("U".to_string(), Type::new(TypeKind::Record(0)))];
    assert_eq!(transparent_union(&typedefs, &records, &named("U")).unwrap(), Some(0));
    assert_eq!(transparent_union(&typedefs, &records, &Type::new(TypeKind::Record(1))).unwrap(), None);
    assert_eq!(transparent_union(&typedefs, &records, &c_int()).unwrap(), None);
    assert!(transparent_union(&typedefs, &records, &Type::new(TypeKind::Record(2))).is_err());
    assert!(transparent_union(&typedefs, &records, &Type::new(TypeKind::Record(9))).is_err());
}
