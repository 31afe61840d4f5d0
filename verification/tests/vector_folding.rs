use toucan_semantic::integer::{BinaryOperator, UnaryOperator};
use toucan_semantic::ir::{ArithmeticConstant, IntegerKind, IntegerValue, Qualifiers, VectorKind};
use toucan_semantic::vector_constant::{
    eval_vector, vector_constant, LaneElement, LiteralLane, VectorConstantType, VectorElement, VectorForm, VectorNode,
    VectorOperand, VectorShape,
};
use toucan_semantic::Error;

fn int32(value: i64) -> IntegerValue {
    IntegerValue { value: (value as i128 as u128) & 0xffff_ffff, bits: 32, signed: true, rank: 3 }
}

fn lane(value: i64) -> ArithmeticConstant {
    ArithmeticConstant::Integer(int32(value))
}

fn uchar(value: u128) -> ArithmeticConstant {
    ArithmeticConstant::Integer(IntegerValue { value, bits: 8, signed: false, rank: 1 })
}

fn int_shape(lanes: u64) -> Result<VectorShape, Error> {
    Ok(VectorShape { vector: true, lane_count: lanes, size_bytes: lanes * 4, element: LaneElement::Integer(int32(0)) })
}

fn literal(offset: usize, lanes: u64, values: &[i64]) -> VectorNode {
    VectorNode {
        offset,
        shape: int_shape(lanes),
        form: VectorForm::Literal {
            checked: Ok(()),
            zero: Ok(lane(0)),
            items: values.iter().map(|v| LiteralLane::Value(Ok(lane(*v)))).collect(),
        },
    }
}

fn binary(operator: BinaryOperator, lhs: VectorOperand, rhs: VectorOperand, lanes: u64) -> VectorNode {
    VectorNode {
        offset: 40,
        shape: int_shape(lanes),
        form: VectorForm::Binary { operator, source: int_shape(lanes), lhs, rhs, floating: unused_facts(lanes) },
    }
}

/// Floating-lane facts for integer vectors, where no lane reads them.
fn unused_facts(lanes: u64) -> Vec<Result<ArithmeticConstant, Error>> {
    (0..lanes).map(|_| Ok(lane(0))).collect()
}

fn vector(node: VectorNode) -> VectorOperand {
    VectorOperand::Vector(Box::new(node))
}

fn scalar(offset: usize, value: i64) -> VectorOperand {
    VectorOperand::Scalar { offset, static_check: Ok(()), value: Ok(lane(value)) }
}

#[test]
fn compound_literal_lanes_are_zero_filled_and_skip_empty_initializers() {
    let node = VectorNode {
        offset: 0,
        shape: int_shape(4),
        form: VectorForm::Literal {
            checked: Ok(()),
            zero: Ok(lane(0)),
            items: vec![LiteralLane::Value(Ok(lane(1))), LiteralLane::Empty, LiteralLane::Value(Ok(lane(3)))],
        },
    };
    assert_eq!(eval_vector(&node, false, false).unwrap(), vec![lane(1), lane(0), lane(3), lane(0)]);
}

#[test]
fn scalar_operands_splat_across_lanes() {
    let node = binary(BinaryOperator::Plus, vector(literal(1, 4, &[1, 2, 3, 4])), scalar(30, 10), 4);
    assert_eq!(eval_vector(&node, false, false).unwrap(), vec![lane(11), lane(12), lane(13), lane(14)]);
}

#[test]
fn comparisons_give_all_ones_or_all_zero_lanes() {
    let node = binary(BinaryOperator::Less, vector(literal(1, 2, &[1, 5])), vector(literal(20, 2, &[3, 3])), 2);
    assert_eq!(eval_vector(&node, false, false).unwrap(), vec![lane(-1), lane(0)]);
}

#[test]
fn shift_counts_past_the_lane_width_are_refused() {
    let node = binary(BinaryOperator::ShiftLeft, vector(literal(1, 2, &[1, 1])), scalar(30, 32), 2);
    let e = eval_vector(&node, false, false).unwrap_err();
    assert_eq!(e.message, "vector shift count exceeds lane width");
    assert_eq!(e.offset, 40);
}

#[test]
fn narrow_lanes_shift_at_their_own_width() {
    let bytes = |values: &[u128]| VectorNode {
        offset: 2,
        shape: Ok(VectorShape {
            vector: true,
            lane_count: 2,
            size_bytes: 2,
            element: LaneElement::Integer(IntegerValue { value: 0, bits: 8, signed: false, rank: 1 }),
        }),
        form: VectorForm::Literal {
            checked: Ok(()),
            zero: Ok(uchar(0)),
            items: values.iter().map(|v| LiteralLane::Value(Ok(uchar(*v)))).collect(),
        },
    };
    let node = VectorNode {
        offset: 9,
        shape: bytes(&[]).shape,
        form: VectorForm::Binary {
            operator: BinaryOperator::ShiftLeft,
            source: bytes(&[]).shape,
            lhs: vector(bytes(&[0x81, 3])),
            rhs: scalar(8, 1),
            floating: unused_facts(2),
        },
    };
    assert_eq!(eval_vector(&node, false, false).unwrap(), vec![uchar(2), uchar(6)]);
}

#[test]
fn signed_lane_negation_overflow_is_refused() {
    let node = VectorNode {
        offset: 7,
        shape: int_shape(2),
        form: VectorForm::Unary {
            operator: UnaryOperator::Minus,
            operand: Box::new(literal(8, 2, &[5, -2147483648])),
            floating: vec![lane(0), lane(0)],
        },
    };
    let e = eval_vector(&node, false, false).unwrap_err();
    assert_eq!(e.message, "signed integer overflow");
    assert_eq!(e.offset, 7);
    let complement = VectorNode {
        offset: 7,
        shape: int_shape(2),
        form: VectorForm::Unary {
            operator: UnaryOperator::Complement,
            operand: Box::new(literal(8, 2, &[0, 5])),
            floating: vec![lane(0), lane(0)],
        },
    };
    assert_eq!(eval_vector(&complement, false, false).unwrap(), vec![lane(-1), lane(-6)]);
}

#[test]
fn gnu_static_initializers_refuse_vector_arithmetic() {
    let node = binary(BinaryOperator::Plus, vector(literal(1, 2, &[1, 2])), scalar(30, 1), 2);
    let e = eval_vector(&node, true, true).unwrap_err();
    assert_eq!(e.message, "GNU static vector arithmetic is not a constant initializer");
    assert_eq!(eval_vector(&node, true, false).unwrap(), vec![lane(2), lane(3)]);
}

#[test]
fn conditionals_and_selections_fold_the_chosen_operand() {
    let node = VectorNode {
        offset: 0,
        shape: int_shape(2),
        form: VectorForm::Conditional {
            static_check: Ok(()),
            condition: Ok(false),
            then_expression: Box::new(literal(3, 2, &[1, 1])),
            else_expression: Box::new(literal(9, 2, &[2, 2])),
        },
    };
    assert_eq!(eval_vector(&node, false, false).unwrap(), vec![lane(2), lane(2)]);
    let chosen = VectorNode {
        offset: 0,
        shape: int_shape(2),
        form: VectorForm::Selected(Ok(Box::new(literal(3, 2, &[4])))),
    };
    assert_eq!(eval_vector(&chosen, false, false).unwrap(), vec![lane(4), lane(0)]);
}

#[test]
fn oversized_and_non_vector_types_are_refused() {
    let wide = VectorNode {
        offset: 5,
        shape: Ok(VectorShape { vector: true, lane_count: 8, size_bytes: 32, element: LaneElement::Integer(int32(0)) }),
        form: VectorForm::Other,
    };
    assert_eq!(
        eval_vector(&wide, false, false).unwrap_err().message,
        "vector constant evaluation exceeds the 16-byte vector limit"
    );
    let scalar_type = VectorNode {
        offset: 5,
        shape: Ok(VectorShape { vector: false, lane_count: 0, size_bytes: 4, element: LaneElement::Integer(int32(0)) }),
        form: VectorForm::Other,
    };
    assert_eq!(
        eval_vector(&scalar_type, false, false).unwrap_err().message,
        "vector constant evaluation requires a fixed vector type"
    );
    let other = VectorNode { offset: 5, shape: int_shape(2), form: VectorForm::Other };
    assert_eq!(eval_vector(&other, false, false).unwrap_err().message, "expression is not a supported vector constant");
}

#[test]
fn convertvector_converts_lanes_and_is_gnu_only_in_static_initializers() {
    let bytes = VectorShape {
        vector: true,
        lane_count: 2,
        size_bytes: 2,
        element: LaneElement::Integer(IntegerValue { value: 0, bits: 8, signed: false, rank: 1 }),
    };
    let convert = |compatible: Result<bool, Error>| VectorNode {
        offset: 12,
        shape: Ok(bytes),
        form: VectorForm::Convert { operand: Box::new(literal(13, 2, &[300, -1])), compatible, floating: unused_facts(2) },
    };
    assert_eq!(eval_vector(&convert(Ok(false)), false, false).unwrap(), vec![uchar(44), uchar(255)]);
    assert_eq!(
        eval_vector(&convert(Ok(true)), true, false).unwrap_err().message,
        "numeric vector conversion is not a static initializer in this compiler profile"
    );
    assert_eq!(
        eval_vector(&convert(Ok(false)), true, true).unwrap_err().message,
        "numeric vector conversion is not a static initializer in this compiler profile"
    );
    assert_eq!(eval_vector(&convert(Ok(true)), true, true).unwrap(), vec![uchar(44), uchar(255)]);
}

#[test]
fn floating_lane_results_come_from_their_facts() {
    let node = VectorNode {
        offset: 12,
        shape: Ok(VectorShape { vector: true, lane_count: 2, size_bytes: 8, element: LaneElement::Floating }),
        form: VectorForm::Convert {
            operand: Box::new(literal(13, 2, &[1, 2])),
            compatible: Ok(false),
            floating: vec![Ok(lane(7)), Err(Error::new(99, "lane cannot be represented"))],
        },
    };
    let e = eval_vector(&node, false, false).unwrap_err();
    assert_eq!((e.offset, e.message.as_str()), (99, "lane cannot be represented"));
}

#[test]
fn folded_vectors_become_constants_of_their_shape() {
    let ty = VectorConstantType::new(
        VectorKind::Gnu,
        VectorElement::Integer(IntegerKind::Int),
        Qualifiers::none(),
        false,
        8,
        8,
        2,
    );
    let constant = vector_constant(&literal(0, 2, &[6, 7]), false, false, ty).unwrap();
    assert_eq!(constant.lanes(), &[lane(6), lane(7)]);
    assert_eq!(constant.ty().lane_count(), 2);
}
