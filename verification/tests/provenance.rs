use toucan_semantic::initializer::{
    check_initialized_type, extend_bound, scalar_braces, static_initializer, vector_lane_item, ConstantKind, InitializedType,
    StaticForm, StaticNode, StaticOperator,
};
use toucan_semantic::ir::{ArithmeticConstant, IntegerKind, IntegerValue, Qualifiers, VectorKind};
use toucan_semantic::object_extent::{
    object_location, object_pointer, object_size_proof, ObjectOrigin, ObjectSizeFoldStage, ObjectSizeResult,
    SiteForm, SiteNode,
};
use toucan_semantic::overflow::{discarded_effects, CallEffects, EffectList, EffectNode, EffectOperator};
use toucan_semantic::statement::{
    block_binding, block_storage_class, check_block_declarator, check_local_complete, BindingAction, BindingFacts,
    BlockDeclarator, DeclaratorRole, StorageClass,
};
use toucan_semantic::vector_constant::{VectorConstant, VectorConstantType, VectorElement};
use toucan_semantic::Error;

fn identifier(volatile: bool) -> EffectNode {
    EffectNode::Identifier { access: Ok(volatile) }
}

#[test]
fn discarded_plain_read_is_free() {
    assert_eq!(discarded_effects(&identifier(false)).unwrap(), Some(false));
    assert_eq!(discarded_effects(&EffectNode::Free).unwrap(), Some(false));
}

#[test]
fn discarded_volatile_read_and_assignment_have_effects() {
    assert_eq!(discarded_effects(&identifier(true)).unwrap(), Some(true));
    assert_eq!(discarded_effects(&EffectNode::Modify).unwrap(), Some(true));
}

#[test]
fn discarded_unknown_call_is_unknown_and_known_effect_wins() {
    let unknown = EffectNode::Call { effects: CallEffects::Unknown, arguments: EffectList::End };
    assert_eq!(discarded_effects(&unknown).unwrap(), None);
    let comma = EffectNode::Comma(EffectList::Item(
        Box::new(EffectNode::Call { effects: CallEffects::Unknown, arguments: EffectList::End }),
        Box::new(EffectList::Item(Box::new(EffectNode::Modify), Box::new(EffectList::End))),
    ));
    assert_eq!(discarded_effects(&comma).unwrap(), Some(true));
}

#[test]
fn discarded_logical_and_skips_right_operand_after_constant_false() {
    let node = EffectNode::Binary {
        operator: EffectOperator::LogicalAnd,
        left_truth: Some(false),
        access: Ok(false),
        lhs: Box::new(EffectNode::Free),
        rhs: Box::new(EffectNode::Modify),
    };
    assert_eq!(discarded_effects(&node).unwrap(), Some(false));
    let evaluated = EffectNode::Binary {
        operator: EffectOperator::LogicalAnd,
        left_truth: None,
        access: Ok(false),
        lhs: Box::new(EffectNode::Free),
        rhs: Box::new(EffectNode::Modify),
    };
    assert_eq!(discarded_effects(&evaluated).unwrap(), Some(true));
}

#[test]
fn discarded_builtin_arguments_decide_and_address_reads_nothing() {
    let call = EffectNode::Call {
        effects: CallEffects::ArgumentsOnly,
        arguments: EffectList::Item(Box::new(identifier(false)), Box::new(EffectList::End)),
    };
    assert_eq!(discarded_effects(&call).unwrap(), Some(false));
    let unevaluated = EffectNode::Call {
        effects: CallEffects::Unevaluated,
        arguments: EffectList::Item(Box::new(EffectNode::Modify), Box::new(EffectList::End)),
    };
    assert_eq!(discarded_effects(&unevaluated).unwrap(), Some(false));
    // Taking the address of a volatile object does not read it.
    assert_eq!(discarded_effects(&EffectNode::Address(Box::new(identifier(true)))).unwrap(), Some(false));
}

#[test]
fn discarded_runtime_sized_type_is_unknown_and_fact_error_surfaces() {
    assert_eq!(discarded_effects(&EffectNode::SizeOf { variable_length: Ok(true) }).unwrap(), None);
    let failing = EffectNode::Identifier { access: Err(Error::new(7, "unknown identifier")) };
    let e = discarded_effects(&failing).unwrap_err();
    assert_eq!(e.offset, 7);
    assert_eq!(e.message, "unknown identifier");
}

#[test]
fn discarded_nesting_limit_gives_unknown() {
    let mut node = EffectNode::Free;
    for _ in 0..130 {
        node = EffectNode::Unary(Box::new(node));
    }
    assert_eq!(discarded_effects(&node).unwrap(), None);
}

fn st(offset: usize, form: StaticForm) -> StaticNode {
    StaticNode { offset, form }
}

#[test]
fn static_constant_and_string_kinds() {
    assert_eq!(static_initializer(&st(0, StaticForm::Evaluated(Ok(())))).unwrap(), ConstantKind::Arithmetic);
    assert_eq!(static_initializer(&st(0, StaticForm::StringLiteral)).unwrap(), ConstantKind::Address);
}

#[test]
fn static_address_plus_integer_is_address() {
    let node = st(
        4,
        StaticForm::Binary {
            operator: StaticOperator::Plus,
            left_truth: None,
            value: Ok(()),
            lhs_value: Ok(()),
            rhs_value: Ok(()),
            lhs: Box::new(st(4, StaticForm::StringLiteral)),
            rhs: Box::new(st(10, StaticForm::Evaluated(Ok(())))),
        },
    );
    assert_eq!(static_initializer(&node).unwrap(), ConstantKind::Address);
}

#[test]
fn static_integer_minus_address_is_rejected() {
    let node = st(
        4,
        StaticForm::Binary {
            operator: StaticOperator::Minus,
            left_truth: None,
            value: Ok(()),
            lhs_value: Ok(()),
            rhs_value: Ok(()),
            lhs: Box::new(st(4, StaticForm::Evaluated(Ok(())))),
            rhs: Box::new(st(8, StaticForm::StringLiteral)),
        },
    );
    let e = static_initializer(&node).unwrap_err();
    assert_eq!(e.offset, 4);
    assert_eq!(e.message, "static storage initializer is not a constant expression");
}

#[test]
fn static_statement_expression_is_unsupported() {
    let e = static_initializer(&st(3, StaticForm::Statement)).unwrap_err();
    assert_eq!(e.offset, 3);
    assert_eq!(e.message, "constant evaluation of statement expressions is unsupported");
}

#[test]
fn static_logical_or_decided_by_left_operand() {
    let node = st(
        0,
        StaticForm::Binary {
            operator: StaticOperator::LogicalOr,
            left_truth: Some(true),
            value: Ok(()),
            lhs_value: Ok(()),
            rhs_value: Ok(()),
            lhs: Box::new(st(0, StaticForm::Evaluated(Ok(())))),
            rhs: Box::new(st(5, StaticForm::Other)),
        },
    );
    assert_eq!(static_initializer(&node).unwrap(), ConstantKind::Arithmetic);
}

#[test]
fn static_pointer_cast_and_compound_array_in_function() {
    let cast = st(
        0,
        StaticForm::Cast {
            pointer: Ok(true),
            operand_value: Ok(()),
            operand: Box::new(st(6, StaticForm::Evaluated(Ok(())))),
        },
    );
    assert_eq!(static_initializer(&cast).unwrap(), ConstantKind::Address);
    let compound = st(2, StaticForm::CompoundLiteral { array: Ok(true), in_function_body: true });
    assert_eq!(static_initializer(&compound).unwrap_err().offset, 2);
    let outside = st(2, StaticForm::CompoundLiteral { array: Ok(true), in_function_body: false });
    assert_eq!(static_initializer(&outside).unwrap(), ConstantKind::Address);
}

fn site(decays: bool, form: SiteForm) -> SiteNode {
    SiteNode { decays: Ok(decays), form }
}

fn array_object(bytes: u64) -> SiteNode {
    site(true, SiteForm::Object { origin: ObjectOrigin::Object, typed: Ok(()), size: Some(bytes) })
}

#[test]
fn location_of_object_covers_its_storage() {
    let l = object_location(&array_object(16), true, false).unwrap().unwrap();
    assert_eq!(l.object.start, 0);
    assert_eq!(l.object.end, 16);
    assert!(l.address.root_address);
    assert_eq!(l.containing_array, None);
}

#[test]
fn pointer_to_array_element_moves_offset() {
    // `&a[2]` for `int a[4]`.
    let element = site(
        false,
        SiteForm::Index {
            left_pointer: Ok(true),
            lhs: Box::new(array_object(16)),
            rhs: Box::new(site(false, SiteForm::Other)),
            index: Some(IntegerValue::new(2, 32, true, 3)),
            element_size: Some(4),
            designator_kept: Ok(true),
        },
    );
    let address_of = site(false, SiteForm::AddressOf { operand: Box::new(element), designator_kept: Ok(true) });
    let a = object_pointer(&address_of, true, false).unwrap().unwrap();
    assert_eq!(a.offset, 8);
    assert_eq!(a.whole.end, 16);
    assert_eq!(a.subobject.end, 16);
    assert!(!a.root_address);
    let proof = object_size_proof(Some(a), Some(false), 0, false, 64, 64);
    assert_eq!(proof.whole_bytes(), Some(8));
    match proof.result() {
        ObjectSizeResult::Constant { value, stage, is_default } => {
            assert_eq!(value.value, 8);
            assert_eq!(stage, ObjectSizeFoldStage::Frontend);
            assert!(!is_default);
        }
        other => panic!("unexpected {:?}", other),
    }
}

#[test]
fn pointer_without_identified_object_is_none() {
    let conditional = site(
        false,
        SiteForm::Conditional {
            truth: None,
            then_expression: Box::new(array_object(4)),
            else_expression: Box::new(array_object(8)),
        },
    );
    assert_eq!(object_pointer(&conditional, true, false).unwrap(), None);
    let proof = object_size_proof(None, Some(false), 0, false, 64, 64);
    assert_eq!(proof.whole_bytes(), None);
    assert_eq!(proof.subobject_bytes(), None);
}

#[test]
fn pointer_comma_discarded_effect_marks_gnu_default() {
    let comma = site(
        false,
        SiteForm::Comma { discarded: vec![Ok(Some(true)), Ok(None)], last: Some(Box::new(array_object(8))) },
    );
    let a = object_pointer(&comma, true, true).unwrap().unwrap();
    assert!(a.gnu_effects);
    assert!(a.uncertain_effects);
    assert_eq!(a.whole.end, 8);
}

#[test]
fn vector_constant_lanes_match_shape() {
    let shape = VectorConstantType::new(
        VectorKind::Gnu,
        VectorElement::Integer(IntegerKind::Int),
        Qualifiers::none(),
        false,
        16,
        16,
        4,
    );
    assert_eq!(shape.size_bytes(), 16);
    assert_eq!(shape.lane_count(), 4);
    let lane = ArithmeticConstant::Integer(IntegerValue::new(1, 32, true, 3));
    let v = VectorConstant::new(shape, vec![lane; 4]);
    assert_eq!(v.lanes().len() as u64, v.ty().lane_count());
    let copy = v.clone();
    assert_eq!(copy.lanes().len(), 4);
}

fn declarator(function: bool, has_initializer: bool) -> BlockDeclarator {
    BlockDeclarator {
        offset: 12,
        named: true,
        variably_modified: Ok(false),
        function: Ok(function),
        variable_length: Ok(false),
        void: Ok(false),
        has_initializer,
    }
}

#[test]
fn block_storage_classes() {
    assert_eq!(block_storage_class(&[], false, 0).unwrap(), None);
    assert_eq!(block_storage_class(&[StorageClass::Static], false, 0).unwrap(), Some(StorageClass::Static));
    let e = block_storage_class(&[StorageClass::Static, StorageClass::Extern], false, 5).unwrap_err();
    assert_eq!(e.offset, 5);
    assert_eq!(e.message, "multiple storage classes in block declaration");
    let e = block_storage_class(&[StorageClass::ThreadLocal], false, 5).unwrap_err();
    assert_eq!(e.message, "block thread-local objects are unsupported");
    let e = block_storage_class(&[StorageClass::Static], true, 5).unwrap_err();
    assert_eq!(e.message, "for declaration permits only auto or register storage");
    assert_eq!(block_storage_class(&[StorageClass::Register], true, 5).unwrap(), Some(StorageClass::Register));
}

#[test]
fn block_declarator_roles() {
    assert_eq!(
        check_block_declarator(Some(StorageClass::Register), false, &declarator(false, true)).unwrap(),
        DeclaratorRole::Object { static_storage: false, register: true }
    );
    assert_eq!(check_block_declarator(None, false, &declarator(true, false)).unwrap(), DeclaratorRole::Linked);
    assert_eq!(
        check_block_declarator(Some(StorageClass::Typedef), false, &declarator(false, false)).unwrap(),
        DeclaratorRole::Typedef
    );
}

#[test]
fn block_declarator_errors() {
    let e = check_block_declarator(Some(StorageClass::Extern), false, &declarator(false, true)).unwrap_err();
    assert_eq!(e.offset, 12);
    assert_eq!(e.message, "block extern declaration cannot have an initializer");
    let e = check_block_declarator(Some(StorageClass::Static), false, &declarator(true, false)).unwrap_err();
    assert_eq!(e.message, "invalid storage class for a block function declaration");
    let e = check_block_declarator(Some(StorageClass::Typedef), false, &declarator(false, true)).unwrap_err();
    assert_eq!(e.message, "typedef cannot have an initializer");
    let mut vm = declarator(false, false);
    vm.variably_modified = Ok(true);
    let e = check_block_declarator(Some(StorageClass::Extern), false, &vm).unwrap_err();
    assert_eq!(e.message, "variably modified identifiers cannot have linkage");
    let mut vla = declarator(false, false);
    vla.variable_length = Ok(true);
    let e = check_block_declarator(Some(StorageClass::Static), false, &vla).unwrap_err();
    assert_eq!(e.message, "variable-length arrays cannot have static storage duration");
    let mut void = declarator(false, false);
    void.void = Ok(true);
    let e = check_block_declarator(None, false, &void).unwrap_err();
    assert_eq!(e.message, "local object cannot have void type");
    let mut unnamed = declarator(false, false);
    unnamed.named = false;
    let e = check_block_declarator(None, false, &unnamed).unwrap_err();
    assert_eq!(e.message, "local declaration has no name");
}

fn initialized(variable_length: bool, incomplete_array: bool, definite: bool, sizeless: bool) -> InitializedType {
    InitializedType {
        variable_length: Ok(variable_length),
        incomplete_array,
        definite: Ok(definite),
        sizeless: Ok(sizeless),
    }
}

#[test]
fn initializer_entry_rules() {
    assert!(check_initialized_type(&initialized(false, false, true, false), true, 0).is_ok());
    assert!(check_initialized_type(&initialized(false, true, false, false), true, 0).is_ok());
    let e = check_initialized_type(&initialized(true, false, true, false), false, 3).unwrap_err();
    assert_eq!(e.offset, 3);
    assert_eq!(e.message, "variable-length arrays cannot have initializers");
    let e = check_initialized_type(&initialized(false, false, false, false), false, 3).unwrap_err();
    assert_eq!(e.message, "initializer requires a complete object type");
    let e = check_initialized_type(&initialized(false, false, true, true), true, 3).unwrap_err();
    assert_eq!(e.message, "objects with static or thread storage cannot have sizeless SVE type");
    assert!(check_initialized_type(&initialized(false, false, true, true), false, 3).is_ok());
}

#[test]
fn scalar_and_vector_brace_rules() {
    assert_eq!(scalar_braces(0, false, 1).unwrap(), false);
    assert_eq!(scalar_braces(1, false, 1).unwrap(), true);
    assert_eq!(scalar_braces(2, false, 1).unwrap_err().message, "scalar initializer requires one value");
    assert_eq!(scalar_braces(1, true, 1).unwrap_err().message, "scalar initializer cannot have a designator");
    assert!(vector_lane_item(false, false, 4).is_ok());
    assert_eq!(vector_lane_item(true, false, 4).unwrap_err().message, "vector initializers cannot have designators");
    assert_eq!(
        vector_lane_item(false, true, 4).unwrap_err().message,
        "nested braces in vector lane initializers are unsupported"
    );
}

#[test]
fn array_bound_grows_to_last_index() {
    assert_eq!(extend_bound(0, 0, 0).unwrap(), 1);
    assert_eq!(extend_bound(5, 2, 0).unwrap(), 5);
    assert_eq!(extend_bound(5, 9, 0).unwrap(), 10);
    assert_eq!(extend_bound(5, u64::MAX, 7).unwrap_err().message, "initializer array bound overflows");
}

fn nothing_in_scope() -> BindingFacts {
    BindingFacts {
        previous_typedef: false,
        typedef_compatible: Ok(true),
        named_in_block: false,
        previous_extern: false,
        extern_compatible: Ok(true),
        file_declaration: false,
        file_compatible: Ok(true),
        linked_in_block: false,
        local_compatible: Ok(true),
    }
}

#[test]
fn block_typedefs_may_repeat_only_compatibly() {
    let fresh = nothing_in_scope();
    assert_eq!(block_binding(DeclaratorRole::Typedef, false, &fresh, 4).unwrap(), BindingAction::DeclareTypedef);
    let repeated = BindingFacts { previous_typedef: true, ..nothing_in_scope() };
    assert_eq!(block_binding(DeclaratorRole::Typedef, false, &repeated, 4).unwrap(), BindingAction::Redeclared);
    let e = block_binding(DeclaratorRole::Typedef, true, &repeated, 4).unwrap_err();
    assert_eq!((e.offset, e.message.as_str()), (4, "conflicting block typedef"));
    let differs = BindingFacts { previous_typedef: true, typedef_compatible: Ok(false), ..nothing_in_scope() };
    assert_eq!(block_binding(DeclaratorRole::Typedef, false, &differs, 4).unwrap_err().message, "conflicting block typedef");
    let object = BindingFacts { named_in_block: true, ..nothing_in_scope() };
    assert_eq!(
        block_binding(DeclaratorRole::Typedef, false, &object, 4).unwrap_err().message,
        "typedef conflicts with a local identifier"
    );
}

#[test]
fn block_externs_agree_with_earlier_declarations_and_merge() {
    let earlier = BindingFacts { previous_extern: true, extern_compatible: Ok(false), ..nothing_in_scope() };
    assert_eq!(
        block_binding(DeclaratorRole::Linked, false, &earlier, 8).unwrap_err().message,
        "conflicting block extern declarations"
    );
    let file = BindingFacts { file_declaration: true, file_compatible: Ok(false), ..nothing_in_scope() };
    assert_eq!(
        block_binding(DeclaratorRole::Linked, false, &file, 8).unwrap_err().message,
        "block extern conflicts with a file declaration"
    );
    let failing = BindingFacts { file_declaration: true, file_compatible: Err(Error::new(2, "unknown typedef")), ..nothing_in_scope() };
    assert_eq!(block_binding(DeclaratorRole::Linked, false, &failing, 8).unwrap_err().offset, 2);
    let again = BindingFacts { linked_in_block: true, ..nothing_in_scope() };
    assert_eq!(block_binding(DeclaratorRole::Linked, false, &again, 8).unwrap(), BindingAction::MergeComposite);
    assert_eq!(block_binding(DeclaratorRole::Linked, false, &nothing_in_scope(), 8).unwrap(), BindingAction::Bind);
    let object = DeclaratorRole::Object { static_storage: false, register: false };
    assert_eq!(block_binding(object, false, &again, 8).unwrap(), BindingAction::Bind);
}

#[test]
fn local_objects_need_complete_types() {
    assert!(check_local_complete(false, &Ok(true), 3).is_ok());
    let e = check_local_complete(false, &Ok(false), 3).unwrap_err();
    assert_eq!((e.offset, e.message.as_str()), (3, "local object requires a complete type"));
    assert!(check_local_complete(true, &Ok(false), 3).is_ok());
}
