use toucan_semantic::checked::{CheckedCode, ExprId, ExprKind};
use toucan_semantic::introspection::CompileTimeSelections;
use toucan_semantic::initializer_list::{check_initializer_list, ExpressionFacts, InitializerItem, InitializerNode};
use toucan_semantic::subobjects::{
    designated_subobject, first_subobject, flexible_in_path, member_designator, next_subobject, subobject,
    Designator, MemberShape, ObjectShape,
};

fn member(name: Option<&str>, bit_field: bool, shape: ObjectShape) -> MemberShape {
    MemberShape { name: name.map(|n| n.to_string()), bit_field, shape }
}

fn array(length: Option<u64>) -> ObjectShape {
    ObjectShape::Array { element: Box::new(ObjectShape::Scalar), length }
}

/// struct { int a; int : 3; int b[2]; union { int c; int d; }; int tail[]; }
fn sample() -> ObjectShape {
    let inner = ObjectShape::Record {
        union: true,
        fields: Some(vec![member(Some("c"), false, ObjectShape::Scalar), member(Some("d"), false, ObjectShape::Scalar)]),
    };
    ObjectShape::Record {
        union: false,
        fields: Some(vec![
            member(Some("a"), false, ObjectShape::Scalar),
            member(None, true, ObjectShape::Scalar),
            member(Some("b"), false, array(Some(2))),
            member(None, false, inner),
            member(Some("tail"), false, array(None)),
        ]),
    }
}

#[test]
fn braced_initializers_start_at_the_first_member() {
    let shape = sample();
    assert_eq!(first_subobject(&shape), Some(0));
    assert_eq!(first_subobject(&array(Some(0))), None);
    assert_eq!(first_subobject(&array(None)), Some(0));
    assert_eq!(first_subobject(&ObjectShape::Scalar), None);
    let padded = ObjectShape::Record { union: false, fields: Some(vec![member(None, true, ObjectShape::Scalar), member(Some("x"), false, ObjectShape::Scalar)]) };
    assert_eq!(first_subobject(&padded), Some(1));
}

#[test]
fn designator_paths_name_subobjects() {
    let shape = sample();
    assert!(matches!(subobject(&shape, &[2, 1], 0).unwrap(), ObjectShape::Scalar));
    assert!(subobject(&shape, &[2, 2], 0).is_err());
    assert!(subobject(&shape, &[7], 0).is_err());
    assert!(subobject(&shape, &[0, 0], 0).is_err());
    assert!(matches!(subobject(&shape, &[4, 1000], 0).unwrap(), ObjectShape::Scalar));
}

#[test]
fn brace_elision_skips_unnamed_bit_fields_and_union_members() {
    let shape = sample();
    assert_eq!(next_subobject(&shape, &[0], 0).unwrap(), Some(vec![2]));
    assert_eq!(next_subobject(&shape, &[2, 0], 0).unwrap(), Some(vec![2, 1]));
    assert_eq!(next_subobject(&shape, &[2, 1], 0).unwrap(), Some(vec![3]));
    // A union initializes one member; elision continues after the union.
    assert_eq!(next_subobject(&shape, &[3, 0], 0).unwrap(), Some(vec![4]));
    assert_eq!(next_subobject(&shape, &[4, 5], 0).unwrap(), Some(vec![4, 6]));
    let done = array(Some(2));
    assert_eq!(next_subobject(&done, &[1], 0).unwrap(), None);
}

#[test]
fn member_designators_look_through_anonymous_members() {
    let shape = sample();
    assert_eq!(member_designator(&shape, "b", 0).unwrap(), Some(vec![2]));
    assert_eq!(member_designator(&shape, "d", 0).unwrap(), Some(vec![3, 1]));
    assert_eq!(member_designator(&shape, "missing", 0).unwrap(), None);
    assert_eq!(member_designator(&ObjectShape::Scalar, "a", 0).unwrap(), None);
    assert!(member_designator(&shape, "a", 128).is_err());
}

#[test]
fn flexible_members_along_a_path() {
    let shape = sample();
    assert_eq!(flexible_in_path(&shape, &[4, 3], 0).unwrap(), Some(1));
    assert_eq!(flexible_in_path(&shape, &[2, 1], 0).unwrap(), None);
    assert!(flexible_in_path(&shape, &[9], 0).is_err());
}

#[test]
fn designated_initializers() {
    let shape = sample();
    let path = designated_subobject(&shape, &[Designator::Member { name: "b".to_string(), start: 1 }, Designator::Index { index: 1, start: 3 }]).unwrap();
    assert_eq!(path, vec![2, 1]);
    let path = designated_subobject(&shape, &[Designator::Member { name: "c".to_string(), start: 1 }]).unwrap();
    assert_eq!(path, vec![3, 0]);
    let range = designated_subobject(&shape, &[Designator::Member { name: "b".to_string(), start: 1 }, Designator::Range { from: 0, to: 1, start: 3 }]).unwrap();
    assert_eq!(range, vec![2, 1]);
    let reversed = designated_subobject(&shape, &[Designator::Member { name: "b".to_string(), start: 1 }, Designator::Range { from: 1, to: 0, start: 3 }]);
    assert_eq!(reversed.unwrap_err().message, "array designator range is reversed");
    let outside = designated_subobject(&shape, &[Designator::Member { name: "b".to_string(), start: 1 }, Designator::Index { index: 2, start: 3 }]);
    assert!(outside.is_err());
    let not_array = designated_subobject(&shape, &[Designator::Index { index: 0, start: 0 }]);
    assert_eq!(not_array.unwrap_err().message, "array designator requires an array");
    let unknown = designated_subobject(&shape, &[Designator::Member { name: "zz".to_string(), start: 5 }]).unwrap_err();
    assert_eq!(unknown.offset, 5);
}

#[test]
fn prefetch_calls_are_found_through_designator_forms() {
    // 0: the prefetch designator; 1: *designator; 2: (0, 1); 3: call through 2; 4: a direct builtin call;
    // 5: an unrelated call; 6: another function.
    let code = CheckedCode {
        expressions: vec![
            ExprKind::BuiltinFunction { prefetch: true },
            ExprKind::Indirection(ExprId(0)),
            ExprKind::Comma(vec![ExprId(6), ExprId(1)]),
            ExprKind::Call { callee: ExprId(2), arguments: vec![ExprId(6)] },
            ExprKind::BuiltinCall { prefetch: true, arguments: vec![ExprId(1), ExprId(2)] },
            ExprKind::Call { callee: ExprId(6), arguments: vec![] },
            ExprKind::Other,
        ],
    };
    assert_eq!(code.prefetch_arguments(ExprId(3)).unwrap(), &[ExprId(6)]);
    assert_eq!(code.prefetch_arguments(ExprId(4)).unwrap(), &[ExprId(1), ExprId(2)]);
    assert!(code.prefetch_arguments(ExprId(5)).is_none());
    assert!(code.prefetch_arguments(ExprId(0)).is_none());
    assert!(code.prefetch_arguments(ExprId(40)).is_none());
    let selected = CheckedCode {
        expressions: vec![
            ExprKind::BuiltinFunction { prefetch: true },
            ExprKind::Other,
            ExprKind::Choose { then_expression: ExprId(1), else_expression: ExprId(0), then_selected: false },
            ExprKind::Generic { arms: vec![ExprId(1), ExprId(2)], selected: 1 },
            ExprKind::Call { callee: ExprId(3), arguments: vec![] },
            ExprKind::StatementExpression(None),
            ExprKind::Call { callee: ExprId(5), arguments: vec![] },
        ],
    };
    assert!(selected.prefetch_arguments(ExprId(4)).is_some());
    assert!(selected.prefetch_arguments(ExprId(6)).is_none());
}

#[test]
fn compile_time_selections_are_made_once() {
    let mut selections = CompileTimeSelections::new();
    assert!(selections.checked_choose_expression((1, 5)).is_err());
    assert!(selections.choose_expression((1, 5), true, true, 2).unwrap());
    // The decision stands even when later facts differ.
    assert!(selections.choose_expression((1, 5), false, false, 2).unwrap());
    assert!(selections.checked_choose_expression((1, 5)).unwrap());
    let error = selections.choose_expression((6, 9), false, true, 7).unwrap_err();
    assert_eq!(error.offset, 7);
    assert!(!selections.choose_expression((6, 9), true, false, 7).unwrap());
    assert_eq!(selections.eval_types_compatible((10, 20), true).unwrap().value, 1);
    assert_eq!(selections.eval_types_compatible((10, 20), false).unwrap().value, 1);
    assert_eq!(selections.eval_types_compatible((30, 40), false).unwrap().value, 0);
}

#[test]
fn argument_packs_through_int_casts_and_selections() {
    let code = CheckedCode {
        expressions: vec![
            ExprKind::ArgumentPack,
            ExprKind::Cast { to_int: true, operand: ExprId(0) },
            ExprKind::UnaryPlus(ExprId(1)),
            ExprKind::Cast { to_int: false, operand: ExprId(0) },
            ExprKind::Choose { then_expression: ExprId(6), else_expression: ExprId(2), then_selected: false },
            ExprKind::Generic { arms: vec![ExprId(6), ExprId(0)], selected: 1 },
            ExprKind::Other,
            ExprKind::Generic { arms: vec![ExprId(0)], selected: 3 },
        ],
    };
    assert!(code.argument_pack(true, ExprId(2)).unwrap());
    assert!(!code.argument_pack(true, ExprId(3)).unwrap());
    assert!(code.argument_pack(true, ExprId(4)).unwrap());
    assert!(code.argument_pack(true, ExprId(5)).unwrap());
    assert!(!code.argument_pack(true, ExprId(6)).unwrap());
    assert!(!code.argument_pack(false, ExprId(0)).unwrap());
    assert!(code.argument_pack(true, ExprId(7)).is_err());
    assert!(code.argument_pack(true, ExprId(9)).is_err());
    assert!(code.check_argument_pack(true, ExprId(0), 2, 3, 1, true, 0).is_ok());
    assert!(code.check_argument_pack(true, ExprId(0), 1, 3, 1, true, 0).is_err());
    assert!(code.check_argument_pack(true, ExprId(0), 0, 1, 1, true, 0).is_err());
    assert!(code.check_argument_pack(true, ExprId(0), 2, 3, 1, false, 0).is_err());
    assert!(code.check_argument_pack(true, ExprId(6), 0, 3, 1, false, 0).is_ok());
}

fn value() -> InitializerNode {
    InitializerNode::Expression(ExpressionFacts { fills: Vec::new(), braced_string: None, value: Ok(None) })
}

fn item(offset: usize, initializer: InitializerNode) -> InitializerItem {
    InitializerItem { offset, designation: Vec::new(), initializer }
}

fn list(offset: usize, items: Vec<InitializerItem>) -> InitializerNode {
    InitializerNode::List { offset, items }
}

#[test]
fn list_completes_unknown_array_bound() {
    // int a[] = {1, 2, 3};
    let node = list(0, vec![item(1, value()), item(4, value()), item(7, value())]);
    let r = check_initializer_list(&array(None), &node, false, false, None).unwrap();
    assert_eq!(r.completed_length, Some(3));
    assert_eq!(r.paths, vec![vec![0], vec![1], vec![2]]);
}

#[test]
fn designator_extends_bound_and_cursor_follows() {
    // int a[] = {[5] = 1, 2};
    let mut first = item(1, value());
    first.designation = vec![Designator::Index { index: 5, start: 2 }];
    let node = list(0, vec![first, item(9, value())]);
    let r = check_initializer_list(&array(None), &node, false, false, None).unwrap();
    assert_eq!(r.completed_length, Some(7));
    assert_eq!(r.paths, vec![vec![5], vec![6]]);
}

#[test]
fn brace_elision_descends_into_subobjects() {
    // struct { int a; int b[2]; } s = {1, 2, 3};
    let shape = ObjectShape::Record {
        union: false,
        fields: Some(vec![member(Some("a"), false, ObjectShape::Scalar), member(Some("b"), false, array(Some(2)))]),
    };
    let node = list(0, vec![item(1, value()), item(4, value()), item(7, value())]);
    let r = check_initializer_list(&shape, &node, false, false, None).unwrap();
    assert_eq!(r.completed_length, None);
    assert_eq!(r.paths, vec![vec![0], vec![1, 0], vec![1, 1]]);
}

#[test]
fn excess_elements_are_refused() {
    let node = list(0, vec![item(1, value()), item(4, value()), item(7, value())]);
    let e = check_initializer_list(&array(Some(2)), &node, false, false, None).unwrap_err();
    assert_eq!(e.offset, 7);
    assert_eq!(e.message, "excess elements in initializer");
}

#[test]
fn scalar_braces_take_one_value() {
    let node = list(3, vec![item(4, value()), item(7, value())]);
    let e = check_initializer_list(&ObjectShape::Scalar, &node, false, false, None).unwrap_err();
    assert_eq!(e.offset, 3);
    assert_eq!(e.message, "scalar initializer requires one value");
}

#[test]
fn lone_string_completes_character_array() {
    // char s[] = {"abc"};
    let string = InitializerNode::Expression(ExpressionFacts {
        fills: vec![true],
        braced_string: Some(Ok(4)),
        value: Ok(Some(4)),
    });
    let node = list(0, vec![item(1, string)]);
    let r = check_initializer_list(&array(None), &node, true, false, None).unwrap();
    assert_eq!(r.completed_length, Some(4));
}

fn flexible_record() -> ObjectShape {
    // struct { int n; int tail[]; }
    ObjectShape::Record {
        union: false,
        fields: Some(vec![member(Some("n"), false, ObjectShape::Scalar), member(Some("tail"), false, array(None))]),
    }
}

#[test]
fn static_flexible_member_gets_its_elements() {
    // static struct { int n; int tail[]; } s = {1, {1, 2, 3}};
    let tail = list(5, vec![item(6, value()), item(9, value()), item(12, value())]);
    let node = list(0, vec![item(1, value()), item(5, tail)]);
    let r = check_initializer_list(&flexible_record(), &node, true, false, Some(1)).unwrap();
    assert_eq!(r.flexible_elements, Some(3));
    assert_eq!(r.paths, vec![vec![0], vec![1]]);
}

#[test]
fn automatic_flexible_member_is_refused() {
    let tail = list(5, vec![item(6, value())]);
    let node = list(0, vec![item(1, value()), item(5, tail)]);
    let e = check_initializer_list(&flexible_record(), &node, false, false, Some(1)).unwrap_err();
    assert_eq!(e.offset, 5);
    assert_eq!(e.message, "flexible array initialization requires static storage on this target");
}

#[test]
fn expression_fact_error_surfaces() {
    let failing = InitializerNode::Expression(ExpressionFacts {
        fills: Vec::new(),
        braced_string: None,
        value: Err(toucan_semantic::Error::new(4, "incompatible initializer")),
    });
    let node = list(0, vec![item(4, failing)]);
    let e = check_initializer_list(&array(Some(1)), &node, false, false, None).unwrap_err();
    assert_eq!(e.message, "incompatible initializer");
}

#[test]
fn refused_designators_report_the_designator_diagnostic() {
    // struct { int a; int b[2]; } s = {.zz = 1};
    let shape = ObjectShape::Record {
        union: false,
        fields: Some(vec![member(Some("a"), false, ObjectShape::Scalar), member(Some("b"), false, array(Some(2)))]),
    };
    let mut unknown = item(1, value());
    unknown.designation = vec![Designator::Member { name: "zz".to_string(), start: 2 }];
    let e = check_initializer_list(&shape, &list(0, vec![unknown]), false, false, None).unwrap_err();
    assert_eq!((e.offset, e.message.as_str()), (2, "unknown initializer member"));
    // int a[2] = {[2] = 1};
    let mut outside = item(1, value());
    outside.designation = vec![Designator::Index { index: 2, start: 3 }];
    let e = check_initializer_list(&array(Some(2)), &list(0, vec![outside]), false, false, None).unwrap_err();
    assert_eq!((e.offset, e.message.as_str()), (3, "initializer designator is outside the object"));
}
