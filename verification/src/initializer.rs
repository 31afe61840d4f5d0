//! Initializer rules on plain facts: which arrays a string literal may
//! initialize and how long they become, and the truth of a static address
//! constant.

use crate::error::Error;
use crate::ir::{IntegerKind, IntegerValue, TypeKind};
use crate::literals::{element_type_spec, CharacterProfile, StringEncoding};
use crate::text::{chars, chars_equal};
use vstd::prelude::*;

verus! {

/// Whether a resolved array element type can hold string literal units.
pub open spec fn character_element(element: TypeKind) -> bool {
    match element {
        TypeKind::Integer(k) => k == IntegerKind::Char || k == IntegerKind::SignedChar || k
            == IntegerKind::UnsignedChar || k == IntegerKind::UnsignedShort || k == IntegerKind::Int || k
            == IntegerKind::Long || k == IntegerKind::UnsignedInt,
        TypeKind::Enum(_) => true,
        _ => false,
    }
}

/// Whether an array with this resolved element type is a character array.
pub fn character_array(element: &TypeKind) -> (r: bool)
    ensures
        r == character_element(*element),
{
    match element {
        TypeKind::Integer(k) => match k {
            IntegerKind::Char | IntegerKind::SignedChar | IntegerKind::UnsignedChar | IntegerKind::UnsignedShort
            | IntegerKind::Int | IntegerKind::Long | IntegerKind::UnsignedInt => true,
            _ => false,
        },
        TypeKind::Enum(_) => true,
        _ => false,
    }
}

/// Whether a string literal whose units have type `source` may initialize
/// an array of `destination` elements: a plain string any character type;
/// a wide string an enumeration with the same integer reading
/// (`source_reading`, `destination_reading`); otherwise the same type.
pub open spec fn string_encoding_compatible(
    source: IntegerKind,
    destination: TypeKind,
    source_reading: Option<IntegerValue>,
    destination_reading: Option<IntegerValue>,
) -> bool {
    if source == IntegerKind::Char {
        match destination {
            TypeKind::Integer(k) => k == IntegerKind::Char || k == IntegerKind::SignedChar || k
                == IntegerKind::UnsignedChar,
            _ => false,
        }
    } else if destination is Enum {
        source_reading is Some && source_reading == destination_reading
    } else {
        destination == TypeKind::Integer(source)
    }
}

/// Initializes an array from a string literal and returns the array's
/// length: its bound, or for an array of unknown length the literal's
/// length `string_length` (terminator included). The initializer must be a
/// string literal (`is_string_literal`), the array a character array whose
/// element type matches the literal's encoding, and a bound may drop only
/// the terminator.
pub fn string_initializer(
    is_string_literal: bool,
    destination: &TypeKind,
    bound: Option<u64>,
    source: IntegerKind,
    string_length: u64,
    source_reading: Option<IntegerValue>,
    destination_reading: Option<IntegerValue>,
    offset: usize,
) -> (r: Result<u64, Error>)
    requires
        string_length > 0,
    ensures
        r is Ok <==> is_string_literal && character_element(*destination) && string_encoding_compatible(
            source,
            *destination,
            source_reading,
            destination_reading,
        ) && (bound matches Some(b) ==> b >= string_length - 1),
        r matches Ok(n) ==> n == match bound {
            Some(b) => b,
            None => string_length,
        },
{
    if !is_string_literal || !character_array(destination) {
        return Err(Error::new(offset, "array expression initializer requires a compatible string literal"));
    }
    let compatible = match source {
        IntegerKind::Char => match destination {
            TypeKind::Integer(k) => match k {
                IntegerKind::Char | IntegerKind::SignedChar | IntegerKind::UnsignedChar => true,
                _ => false,
            },
            _ => false,
        },
        _ => match destination {
            TypeKind::Enum(_) => match (source_reading, destination_reading) {
                (Some(a), Some(b)) => a == b,
                _ => false,
            },
            TypeKind::Integer(k) => *k == source,
            _ => false,
        },
    };
    if !compatible {
        return Err(Error::new(offset, "string encoding is incompatible with the array element type"));
    }
    match bound {
        Some(b) => {
            if b < string_length - 1 {
                return Err(Error::new(offset, "string literal is too long for the array"));
            }
            Ok(b)
        },
        None => Ok(string_length),
    }
}

/// What a static address constant is relative to: a named object or
/// function, or an anonymous object by its source position.
#[derive(Clone, Copy, Debug, PartialEq, Eq)]
pub enum PointerBase<'a> {
    Symbol(&'a str),
    Anonymous(usize, usize),
}

/// A static pointer constant: a base (none for an absolute address), a
/// byte offset, and whether the base may be null (a weak symbol).
#[derive(Clone, Copy, Debug, PartialEq, Eq)]
pub struct PointerConstant<'a> {
    pub base: Option<PointerBase<'a>>,
    pub offset: u128,
    pub nullable: bool,
}

impl<'a> PointerConstant<'a> {
    /// The constant's truth value, when it is known: an absolute address
    /// is true unless zero, an address of an object that cannot be null is
    /// true, and one whose base may be null is unknown.
    pub fn truth(self) -> (r: Option<bool>)
        ensures
            r == if self.base is None {
                Some(self.offset != 0)
            } else if self.nullable {
                None
            } else {
                Some(true)
            },
    {
        if self.base.is_none() {
            Some(self.offset != 0)
        } else if self.nullable {
            None
        } else {
            Some(true)
        }
    }
}


/// A pointer constant's base as a plain value: a symbol by its spelling, or
/// an anonymous object by its source extent.
pub type BaseModel = (bool, Seq<char>, usize, usize);

/// A pointer constant as a plain value: its base, byte offset and whether
/// its base may be null.
pub type AddressModel = (Option<BaseModel>, u128, bool);

pub open spec fn address_model<'a>(p: PointerConstant<'a>) -> AddressModel {
    (
        match p.base {
            Some(PointerBase::Symbol(s)) => Some((true, s@, 0usize, 0usize)),
            Some(PointerBase::Anonymous(a, z)) => Some((false, Seq::empty(), a, z)),
            None => None,
        },
        p.offset,
        p.nullable,
    )
}

pub open spec fn optional_address<'a>(p: Option<PointerConstant<'a>>) -> Option<AddressModel> {
    match p {
        Some(c) => Some(address_model(c)),
        None => None,
    }
}

/// The truth of an address constant, when it is known.
pub open spec fn address_truth(a: AddressModel) -> Option<bool> {
    if a.0 is None {
        Some(a.1 != 0)
    } else if a.2 {
        None
    } else {
        Some(true)
    }
}

/// The absolute address an integer converts to, in the target's pointer
/// width.
pub open spec fn absolute_address(v: IntegerValue, mask: u128) -> u128 {
    (if v.signed {
        v.signed_value_spec() as u128
    } else {
        v.value
    }) & mask
}

/// How pointer arithmetic in a static address combines its operands.
#[derive(Clone, Copy, Debug, PartialEq, Eq, Structural)]
pub enum AddressOperator {
    Plus,
    Minus,
    Index,
}

/// An expression as a static address constant reads it, at a source
/// offset, with whether it evaluates to the integer zero. Facts another
/// analysis computes (types, layouts, evaluations) are carried in the
/// node, each with its error, and consulted only where the rule reaches
/// them.
#[derive(Debug)]
pub struct PointerNode {
    pub offset: usize,
    pub zero: bool,
    pub form: PointerForm,
}

/// The forms a static address constant distinguishes. A `designator` fact
/// says whether a designator expression has array or function type; a
/// location that is not one cannot stand as a value.
#[derive(Debug)]
pub enum PointerForm {
    /// An identifier: whether its type is known, whether it is an array or
    /// function, whether it has static storage, whether it names a builtin
    /// function, whether its visible declaration is linked, and whether the
    /// symbol is weak.
    Identifier {
        name: String,
        typed: Result<(), Error>,
        array_or_function: Result<bool, Error>,
        static_storage: bool,
        builtin_reference: Result<bool, Error>,
        linked: bool,
        weak: bool,
    },
    /// A string literal ending at `end`.
    StringLiteral { end: usize },
    /// A compound literal ending at `end`.
    CompoundLiteral { end: usize, designator: Result<bool, Error> },
    /// `&operand`.
    Address(Box<PointerNode>),
    /// `*operand`.
    Indirection { designator: Result<bool, Error>, operand: Box<PointerNode> },
    /// A cast: whether its type is a pointer type, the operand's integer
    /// value when it evaluates to one, and the operand.
    Cast { pointer: Result<bool, Error>, value: Option<IntegerValue>, operand: Box<PointerNode> },
    /// `base.member` or `base->member`: the base's type, whether it is a
    /// pointer (for `->`), and the member's byte offset.
    Member {
        direct: bool,
        designator: Result<bool, Error>,
        base: Box<PointerNode>,
        base_typed: Result<(), Error>,
        base_pointer: Result<bool, Error>,
        field_offset: Result<u64, Error>,
    },
    /// `lhs + rhs`, `lhs - rhs` or `lhs[rhs]`: whether the left operand is
    /// a pointer, the right operand's type, whether it is a pointer, the
    /// pointee size of the pointer operand (one for `void` and functions),
    /// and the integer operand's value.
    Arithmetic {
        operator: AddressOperator,
        designator: Result<bool, Error>,
        lhs: Box<PointerNode>,
        rhs: Box<PointerNode>,
        left_pointer: Result<bool, Error>,
        right_typed: Result<(), Error>,
        right_pointer: Result<bool, Error>,
        stride: Result<u64, Error>,
        index: Result<IntegerValue, Error>,
    },
    /// `c ? t : e`: whether the condition is a pointer, its arithmetic
    /// truth when it is not, and whether the GNU profile applies.
    Conditional {
        condition_pointer: Result<bool, Error>,
        arithmetic_truth: Result<bool, Error>,
        gnu: bool,
        condition: Box<PointerNode>,
        then_expression: Option<Box<PointerNode>>,
        else_expression: Box<PointerNode>,
    },
    /// `__builtin_choose_expr` or `_Generic`, with the operand it selects.
    Selected(Result<Box<PointerNode>, Error>),
    /// Anything else.
    Other,
}

/// Why an expression is no static address constant: a consulted fact's
/// error, or a conditional at this offset without a constant pointer
/// condition.
pub enum AddressFailure {
    Fact(Error),
    NoCondition(usize),
}

/// Whether a static address outcome is the one the rules give.
pub open spec fn reports_address<'a>(
    r: Result<Option<PointerConstant<'a>>, Error>,
    expected: Result<Option<AddressModel>, AddressFailure>,
) -> bool {
    match (r, expected) {
        (Ok(p), Ok(a)) => optional_address(p) == a,
        (Err(e), Err(AddressFailure::Fact(f))) => e == f,
        (Err(e), Err(AddressFailure::NoCondition(offset))) => e.offset == offset && e.message@
            == "static storage initializer has no constant pointer condition"@,
        _ => false,
    }
}

/// The check a designator makes where it must stand as a value: its type
/// must be an array or function type.
pub open spec fn designator_check(location: bool, designator: Result<bool, Error>) -> Result<bool, AddressFailure> {
    if location {
        Ok(true)
    } else {
        match designator {
            Ok(b) => Ok(b),
            Err(e) => Err(AddressFailure::Fact(e)),
        }
    }
}

/// A selected conditional branch: the null pointer where it is the integer
/// zero, otherwise its address.
pub open spec fn selected_address(node: PointerNode, mask: u128) -> Result<Option<AddressModel>, AddressFailure>
    decreases node, 1int,
{
    if node.zero {
        Ok(Some((None, 0, false)))
    } else {
        static_address(node, false, mask)
    }
}

/// The static address constant an expression denotes: `Ok(None)` where it
/// denotes none, `Err(Fact(e))` where a consulted fact is the error `e`,
/// `Err(NoCondition(offset))` at a conditional without a constant pointer condition.
/// `location` asks for the address of an object rather than a value.
pub open spec fn static_address(node: PointerNode, location: bool, mask: u128) -> Result<Option<AddressModel>, AddressFailure>
    decreases node, 0int,
{
    match node.form {
        PointerForm::Identifier { name, typed, array_or_function, static_storage, builtin_reference, linked, weak } => match typed {
            Err(e) => Err(AddressFailure::Fact(e)),
            Ok(()) => match designator_check(location, array_or_function) {
                Err(e) => Err(e),
                Ok(false) => Ok(None),
                Ok(true) => match (if static_storage {
                    Ok(true)
                } else {
                    builtin_reference
                }) {
                    Err(e) => Err(AddressFailure::Fact(e)),
                    Ok(false) => Ok(None),
                    Ok(true) => Ok(Some((Some((true, name@, 0usize, 0usize)), 0, linked && weak))),
                },
            },
        },
        PointerForm::StringLiteral { end } => Ok(Some((Some((false, Seq::empty(), node.offset, end)), 0, false))),
        PointerForm::CompoundLiteral { end, designator } => match designator_check(location, designator) {
            Err(e) => Err(e),
            Ok(false) => Ok(None),
            Ok(true) => Ok(Some((Some((false, Seq::empty(), node.offset, end)), 0, false))),
        },
        PointerForm::Address(operand) => if location {
            Ok(None)
        } else {
            static_address(*operand, true, mask)
        },
        PointerForm::Indirection { designator, operand } => match designator_check(location, designator) {
            Err(e) => Err(e),
            Ok(false) => Ok(None),
            Ok(true) => static_address(*operand, false, mask),
        },
        PointerForm::Cast { pointer, value, operand } => if location {
            Ok(None)
        } else {
            match pointer {
                Err(e) => Err(AddressFailure::Fact(e)),
                Ok(false) => Ok(None),
                Ok(true) => match value {
                    Some(v) => Ok(Some((None, absolute_address(v, mask), false))),
                    None => static_address(*operand, false, mask),
                },
            }
        },
        PointerForm::Member { direct, designator, base, base_typed, base_pointer, field_offset } => match designator_check(
            location,
            designator,
        ) {
            Err(e) => Err(e),
            Ok(false) => Ok(None),
            Ok(true) => match static_address(*base, direct, mask) {
                Err(e) => Err(e),
                Ok(None) => Ok(None),
                Ok(Some(a)) => match base_typed {
                    Err(e) => Err(AddressFailure::Fact(e)),
                    Ok(()) => match (if direct {
                        Ok(true)
                    } else {
                        base_pointer
                    }) {
                        Err(e) => Err(AddressFailure::Fact(e)),
                        Ok(false) => Ok(None),
                        Ok(true) => match field_offset {
                            Err(e) => Err(AddressFailure::Fact(e)),
                            Ok(bytes) => Ok(Some((a.0, a.1.wrapping_add(bytes as u128) & mask, a.2))),
                        },
                    },
                },
            },
        },
        PointerForm::Arithmetic { operator, designator, lhs, rhs, left_pointer, right_typed, right_pointer, stride, index } => {
            match designator_check(location || operator != AddressOperator::Index, designator) {
                Err(e) => Err(e),
                Ok(false) => Ok(None),
                Ok(true) => match left_pointer {
                    Err(e) => Err(AddressFailure::Fact(e)),
                    Ok(left) => if !left && operator == AddressOperator::Minus {
                        Ok(None)
                    } else if !left && right_typed is Err {
                        Err(AddressFailure::Fact(right_typed->Err_0))
                    } else {
                        match static_address(if left { *lhs } else { *rhs }, false, mask) {
                            Err(e) => Err(e),
                            Ok(None) => Ok(None),
                            Ok(Some(a)) => match (if left {
                                Ok(true)
                            } else {
                                right_pointer
                            }) {
                                Err(e) => Err(AddressFailure::Fact(e)),
                                Ok(false) => Ok(None),
                                Ok(true) => match stride {
                                    Err(e) => Err(AddressFailure::Fact(e)),
                                    Ok(st) => match index {
                                        Err(e) => Err(AddressFailure::Fact(e)),
                                        Ok(v) => {
                                            let i = if v.signed {
                                                v.signed_value_spec() as u128
                                            } else {
                                                v.value
                                            };
                                            let bytes = i.wrapping_mul(st as u128);
                                            let moved = if operator == AddressOperator::Minus {
                                                a.1.wrapping_sub(bytes)
                                            } else {
                                                a.1.wrapping_add(bytes)
                                            };
                                            Ok(Some((a.0, moved & mask, a.2)))
                                        },
                                    },
                                },
                            },
                        }
                    },
                },
            }
        },
        PointerForm::Conditional { condition_pointer, arithmetic_truth, gnu, condition, then_expression, else_expression } => if location {
            Ok(None)
        } else {
            match condition_pointer {
                Err(e) => Err(AddressFailure::Fact(e)),
                Ok(false) => match arithmetic_truth {
                    Err(e) => Err(AddressFailure::Fact(e)),
                    Ok(t) => if t {
                        match then_expression {
                            Some(x) => selected_address(*x, mask),
                            None => Ok(None),
                        }
                    } else {
                        selected_address(*else_expression, mask)
                    },
                },
                Ok(true) => match static_address(*condition, false, mask) {
                    Err(e) => Err(e),
                    Ok(address) => match (match address {
                        Some(a) => address_truth(a),
                        None => None,
                    }) {
                        Some(t) => if t {
                            match then_expression {
                                Some(x) => selected_address(*x, mask),
                                None => Ok(address),
                            }
                        } else {
                            selected_address(*else_expression, mask)
                        },
                        None => if !gnu || address is None {
                            Err(AddressFailure::NoCondition(node.offset))
                        } else {
                            match (if else_expression.zero {
                                Ok(true)
                            } else {
                                match static_address(*else_expression, false, mask) {
                                    Err(e) => Err(e),
                                    Ok(v) => Ok(
                                        match v {
                                            Some(x) => x.0 is None && x.1 == 0,
                                            None => false,
                                        },
                                    ),
                                }
                            }) {
                                Err(e) => Err(e),
                                Ok(false) => Err(AddressFailure::NoCondition(node.offset)),
                                Ok(true) => match then_expression {
                                    None => Ok(address),
                                    Some(x) => match static_address(*x, false, mask) {
                                        Err(e) => Err(e),
                                        Ok(v) => if v == address {
                                            selected_address(*x, mask)
                                        } else {
                                            Err(AddressFailure::NoCondition(node.offset))
                                        },
                                    },
                                },
                            }
                        },
                    },
                },
            }
        },
        PointerForm::Selected(s) => match s {
            Ok(b) => static_address(*b, location, mask),
            Err(e) => Err(AddressFailure::Fact(e)),
        },
        PointerForm::Other => Ok(None),
    }
}


/// The target's pointer bits as a mask.
pub open spec fn pointer_mask(bits: u32) -> u128 {
    u128::MAX >> ((128 - bits) as u32)
}

fn address_mask(bits: u32) -> (m: u128)
    requires
        0 < bits <= 128,
    ensures
        m == pointer_mask(bits),
{
    let shift: u32 = 128 - bits;
    u128::MAX >> shift
}

fn same_address<'a>(a: Option<PointerConstant<'a>>, b: Option<PointerConstant<'a>>) -> (r: bool)
    ensures
        r == (optional_address(a) == optional_address(b)),
{
    match (a, b) {
        (None, None) => true,
        (Some(x), Some(y)) => {
            if x.offset != y.offset || x.nullable != y.nullable {
                return false;
            }
            match (x.base, y.base) {
                (None, None) => true,
                (Some(PointerBase::Symbol(p)), Some(PointerBase::Symbol(q))) => {
                    let c = chars(p);
                    chars_equal(c.as_slice(), q)
                },
                (Some(PointerBase::Anonymous(p, q)), Some(PointerBase::Anonymous(u, v))) => p == u && q == v,
                _ => false,
            }
        },
        _ => false,
    }
}

fn fact_bool(f: &Result<bool, Error>) -> (r: Result<bool, Error>)
    ensures
        match r {
            Ok(b) => *f == Ok::<bool, Error>(b),
            Err(e) => *f == Err::<bool, Error>(e),
        },
{
    match f {
        Ok(b) => Ok(*b),
        Err(e) => Err(e.duplicate()),
    }
}

fn designator_holds(location: bool, designator: &Result<bool, Error>) -> (r: Result<bool, Error>)
    ensures
        match r {
            Ok(b) => designator_check(location, *designator) == Ok::<bool, AddressFailure>(b),
            Err(e) => designator_check(location, *designator) == Err::<bool, AddressFailure>(AddressFailure::Fact(e)),
        },
{
    if location {
        Ok(true)
    } else {
        fact_bool(designator)
    }
}

fn no_condition(offset: usize) -> (e: Error)
    ensures
        e.message@ == "static storage initializer has no constant pointer condition"@,
        e.offset == offset,
{
    Error::new(offset, "static storage initializer has no constant pointer condition")
}

fn selected_pointer<'a>(node: &'a PointerNode, mask: u128) -> (r: Result<Option<PointerConstant<'a>>, Error>)
    ensures
        reports_address(r, selected_address(*node, mask)),
    decreases node, 1int,
{
    if node.zero {
        let p = PointerConstant { base: None, offset: 0, nullable: false };
        return Ok(Some(p));
    }
    masked_pointer(node, false, mask)
}

fn masked_pointer<'a>(node: &'a PointerNode, location: bool, mask: u128) -> (r: Result<Option<PointerConstant<'a>>, Error>)
    ensures
        reports_address(r, static_address(*node, location, mask)),
    decreases node, 0int,
{
    match &node.form {
        PointerForm::Identifier { name, typed, array_or_function, static_storage, builtin_reference, linked, weak } => {
            match typed {
                Err(e) => {
                    return Err(e.duplicate());
                },
                Ok(()) => {},
            }
            if !designator_holds(location, array_or_function)? {
                return Ok(None);
            }
            if !*static_storage && !fact_bool(builtin_reference)? {
                return Ok(None);
            }
            let symbol: &'a str = name.as_str();
            Ok(Some(PointerConstant { base: Some(PointerBase::Symbol(symbol)), offset: 0, nullable: *linked && *weak }))
        },
        PointerForm::StringLiteral { end } => Ok(
            Some(PointerConstant { base: Some(PointerBase::Anonymous(node.offset, *end)), offset: 0, nullable: false }),
        ),
        PointerForm::CompoundLiteral { end, designator } => {
            if !designator_holds(location, designator)? {
                return Ok(None);
            }
            Ok(Some(PointerConstant { base: Some(PointerBase::Anonymous(node.offset, *end)), offset: 0, nullable: false }))
        },
        PointerForm::Address(operand) => {
            if location {
                Ok(None)
            } else {
                masked_pointer(&**operand, true, mask)
            }
        },
        PointerForm::Indirection { designator, operand } => {
            if !designator_holds(location, designator)? {
                return Ok(None);
            }
            masked_pointer(&**operand, false, mask)
        },
        PointerForm::Cast { pointer, value, operand } => {
            if location {
                return Ok(None);
            }
            if !fact_bool(pointer)? {
                return Ok(None);
            }
            match value {
                Some(v) => {
                    let raw: u128 = if v.signed {
                        v.signed_value() as u128
                    } else {
                        v.value
                    };
                    Ok(Some(PointerConstant { base: None, offset: raw & mask, nullable: false }))
                },
                None => masked_pointer(&**operand, false, mask),
            }
        },
        PointerForm::Member { direct, designator, base, base_typed, base_pointer, field_offset } => {
            if !designator_holds(location, designator)? {
                return Ok(None);
            }
            let address = match masked_pointer(&**base, *direct, mask)? {
                Some(a) => a,
                None => {
                    return Ok(None);
                },
            };
            match base_typed {
                Err(e) => {
                    return Err(e.duplicate());
                },
                Ok(()) => {},
            }
            if !*direct && !fact_bool(base_pointer)? {
                return Ok(None);
            }
            let bytes = match field_offset {
                Ok(b) => *b,
                Err(e) => {
                    return Err(e.duplicate());
                },
            };
            Ok(Some(PointerConstant { offset: address.offset.wrapping_add(bytes as u128) & mask, ..address }))
        },
        PointerForm::Arithmetic { operator, designator, lhs, rhs, left_pointer, right_typed, right_pointer, stride, index } => {
            let indexing = match operator {
                AddressOperator::Index => true,
                _ => false,
            };
            let minus = match operator {
                AddressOperator::Minus => true,
                _ => false,
            };
            if !designator_holds(location || !indexing, designator)? {
                return Ok(None);
            }
            let left = fact_bool(left_pointer)?;
            if !left && minus {
                return Ok(None);
            }
            if !left {
                match right_typed {
                    Err(e) => {
                        return Err(e.duplicate());
                    },
                    Ok(()) => {},
                }
            }
            let side: &'a PointerNode = if left {
                &**lhs
            } else {
                &**rhs
            };
            let address = match masked_pointer(side, false, mask)? {
                Some(a) => a,
                None => {
                    return Ok(None);
                },
            };
            if !left && !fact_bool(right_pointer)? {
                return Ok(None);
            }
            let st = match stride {
                Ok(v) => *v,
                Err(e) => {
                    return Err(e.duplicate());
                },
            };
            let v = match index {
                Ok(v) => *v,
                Err(e) => {
                    return Err(e.duplicate());
                },
            };
            let i: u128 = if v.signed {
                v.signed_value() as u128
            } else {
                v.value
            };
            let bytes = i.wrapping_mul(st as u128);
            let moved = if minus {
                address.offset.wrapping_sub(bytes)
            } else {
                address.offset.wrapping_add(bytes)
            };
            Ok(Some(PointerConstant { offset: moved & mask, ..address }))
        },
        PointerForm::Conditional { condition_pointer, arithmetic_truth, gnu, condition, then_expression, else_expression } => {
            if location {
                return Ok(None);
            }
            if !fact_bool(condition_pointer)? {
                let t = fact_bool(arithmetic_truth)?;
                if t {
                    return match then_expression {
                        Some(x) => selected_pointer(&**x, mask),
                        None => Ok(None),
                    };
                }
                return selected_pointer(&**else_expression, mask);
            }
            let address = masked_pointer(&**condition, false, mask)?;
            let known = match address {
                Some(a) => a.truth(),
                None => None,
            };
            match known {
                Some(t) => {
                    if t {
                        return match then_expression {
                            Some(x) => selected_pointer(&**x, mask),
                            None => Ok(address),
                        };
                    }
                    return selected_pointer(&**else_expression, mask);
                },
                None => {},
            }
            if !*gnu || address.is_none() {
                return Err(no_condition(node.offset));
            }
            let else_null = if else_expression.zero {
                true
            } else {
                match masked_pointer(&**else_expression, false, mask)? {
                    Some(x) => x.base.is_none() && x.offset == 0,
                    None => false,
                }
            };
            if !else_null {
                return Err(no_condition(node.offset));
            }
            match then_expression {
                None => Ok(address),
                Some(x) => {
                    let v = masked_pointer(&**x, false, mask)?;
                    if same_address(v, address) {
                        selected_pointer(&**x, mask)
                    } else {
                        Err(no_condition(node.offset))
                    }
                },
            }
        },
        PointerForm::Selected(s) => match s {
            Ok(b) => masked_pointer(&**b, location, mask),
            Err(e) => Err(e.duplicate()),
        },
        PointerForm::Other => Ok(None),
    }
}

/// The static address constant an initializer expression denotes, for a
/// target whose pointers have `pointer_bits` bits: a symbol (nullable where
/// it is a linked weak symbol), an anonymous object, or an absolute address,
/// with the byte offset that member access and pointer arithmetic add,
/// wrapped to the pointer width; `None` where the expression is no address
/// constant. `location` asks for the address of an object rather than a
/// value. A conditional must have a constant pointer condition; under GNU,
/// `p ? p : 0` keeps `p`'s relocation.
pub fn static_pointer<'a>(node: &'a PointerNode, location: bool, pointer_bits: u32) -> (r: Result<
    Option<PointerConstant<'a>>,
    Error,
>)
    requires
        0 < pointer_bits <= 128,
    ensures
        reports_address(r, static_address(*node, location, pointer_mask(pointer_bits))),
{
    let mask = address_mask(pointer_bits);
    masked_pointer(node, location, mask)
}

/// What a static storage initializer's expression is as a constant.
#[derive(Clone, Copy, Debug, PartialEq, Eq, Structural)]
pub enum ConstantKind {
    Arithmetic,
    Address,
}

/// How a binary operator accepted in a static initializer combines kinds.
#[derive(Clone, Copy, Debug, PartialEq, Eq, Structural)]
pub enum StaticOperator {
    /// `&&`: constant when the left operand is constant false.
    LogicalAnd,
    /// `||`: constant when the left operand is constant true.
    LogicalOr,
    /// `+`: an address plus an integer, either way round.
    Plus,
    /// `-`: an address minus an integer.
    Minus,
    /// Every other arithmetic, shift, comparison and bitwise operator.
    Arithmetic,
}

/// An expression as the static initializer check reads it, at a source
/// offset. Facts another analysis computes (types, evaluations, lvalue
/// checks) are carried in the node, each with its error, and consulted only
/// where the rule reaches them; an `Ok(())` evaluation succeeded.
#[derive(Debug)]
pub struct StaticNode {
    pub offset: usize,
    pub form: StaticForm,
}

/// The forms a static initializer distinguishes.
#[derive(Debug)]
pub enum StaticForm {
    /// A statement expression.
    Statement,
    /// A constant, `sizeof`, `_Alignof`, `offsetof`,
    /// `__builtin_types_compatible_p`, or an arithmetic builtin call, with
    /// the outcome of evaluating it.
    Evaluated(Result<(), Error>),
    /// A compound literal: whether its checked type is an array, and whether
    /// it stands in a function body.
    CompoundLiteral { array: Result<bool, Error>, in_function_body: bool },
    /// A string literal.
    StringLiteral,
    /// A member access, `*operand` or `a[i]`: whether it designates an array
    /// or function, and the outcome of checking it as a static lvalue.
    Designator { array_or_function: Result<bool, Error>, lvalue: Result<(), Error> },
    /// An identifier: whether it names an enumeration or constant object, and
    /// otherwise whether it is an array or function with static storage (not
    /// imported from a DLL) or a builtin function reference.
    Identifier { constant: bool, static_designator: Result<bool, Error> },
    /// `&operand`, with the outcome of checking the operand as a static lvalue.
    Address(Result<(), Error>),
    /// `+`, `-`, `~`, `!`, `__real__` or `__imag__` applied to an operand.
    Unary(Box<StaticNode>),
    /// A cast: whether its type is a pointer, and the outcome of evaluating
    /// the operand.
    Cast { pointer: Result<bool, Error>, operand_value: Result<(), Error>, operand: Box<StaticNode> },
    /// An accepted binary operator: the left operand's constant truth when it
    /// has one, and the outcomes of evaluating the whole expression, the left
    /// operand and the right operand.
    Binary {
        operator: StaticOperator,
        left_truth: Option<bool>,
        value: Result<(), Error>,
        lhs_value: Result<(), Error>,
        rhs_value: Result<(), Error>,
        lhs: Box<StaticNode>,
        rhs: Box<StaticNode>,
    },
    /// `c ? t : e`: the branch selected by declaration-time binding, or
    /// `None` where the condition itself is reused as the value.
    Conditional { condition: Box<StaticNode>, branch: Result<Option<Box<StaticNode>>, Error> },
    /// `__builtin_choose_expr` or `_Generic`, with the operand it selects.
    Selected(Result<Box<StaticNode>, Error>),
    /// Anything else.
    Other,
}

/// Why an expression is no static initializer.
#[derive(Clone, Debug)]
pub enum StaticFailure {
    /// A consulted fact's error.
    Fact(Error),
    /// The expression at this offset is not a constant expression.
    Invalid(usize),
    /// A statement expression at this offset.
    Statement(usize),
}

/// The diagnostic a failure is reported as.
pub open spec fn reports_failure(e: Error, failure: StaticFailure) -> bool {
    match failure {
        StaticFailure::Fact(f) => e == f,
        StaticFailure::Invalid(offset) => e.offset == offset && e.message@
            == "static storage initializer is not a constant expression"@,
        StaticFailure::Statement(offset) => e.offset == offset && e.message@
            == "constant evaluation of statement expressions is unsupported"@,
    }
}

/// Whether a diagnostic is exactly what a static initializer check gives.
pub open spec fn reports_static(r: Result<ConstantKind, Error>, expected: Result<ConstantKind, StaticFailure>) -> bool {
    match (r, expected) {
        (Ok(k), Ok(j)) => k == j,
        (Err(e), Err(f)) => reports_failure(e, f),
        _ => false,
    }
}

/// The kind of constant a static storage initializer is: an arithmetic
/// constant or an address constant; or why it is neither.
pub open spec fn static_initializer_spec(node: StaticNode) -> Result<ConstantKind, StaticFailure>
    decreases node,
{
    let invalid = Err(StaticFailure::Invalid(node.offset));
    match node.form {
        StaticForm::Statement => Err(StaticFailure::Statement(node.offset)),
        StaticForm::Evaluated(outcome) => match outcome {
            Ok(()) => Ok(ConstantKind::Arithmetic),
            Err(e) => Err(StaticFailure::Fact(e)),
        },
        StaticForm::CompoundLiteral { array, in_function_body } => match array {
            Err(e) => Err(StaticFailure::Fact(e)),
            Ok(false) => Ok(ConstantKind::Arithmetic),
            Ok(true) => if in_function_body {
                invalid
            } else {
                Ok(ConstantKind::Address)
            },
        },
        StaticForm::StringLiteral => Ok(ConstantKind::Address),
        StaticForm::Designator { array_or_function, lvalue } => match array_or_function {
            Err(e) => Err(StaticFailure::Fact(e)),
            Ok(false) => invalid,
            Ok(true) => match lvalue {
                Err(e) => Err(StaticFailure::Fact(e)),
                Ok(()) => Ok(ConstantKind::Address),
            },
        },
        StaticForm::Identifier { constant, static_designator } => if constant {
            Ok(ConstantKind::Arithmetic)
        } else {
            match static_designator {
                Err(e) => Err(StaticFailure::Fact(e)),
                Ok(true) => Ok(ConstantKind::Address),
                Ok(false) => invalid,
            }
        },
        StaticForm::Address(lvalue) => match lvalue {
            Err(e) => Err(StaticFailure::Fact(e)),
            Ok(()) => Ok(ConstantKind::Address),
        },
        StaticForm::Unary(operand) => match static_initializer_spec(*operand) {
            Err(f) => Err(f),
            Ok(ConstantKind::Arithmetic) => Ok(ConstantKind::Arithmetic),
            Ok(ConstantKind::Address) => invalid,
        },
        StaticForm::Cast { pointer, operand_value, operand } => match static_initializer_spec(*operand) {
            Err(f) => Err(f),
            Ok(kind) => match pointer {
                Err(e) => Err(StaticFailure::Fact(e)),
                Ok(true) => if kind == ConstantKind::Arithmetic && operand_value is Err {
                    Err(StaticFailure::Fact(operand_value->Err_0))
                } else {
                    Ok(ConstantKind::Address)
                },
                Ok(false) => if kind == ConstantKind::Arithmetic {
                    Ok(kind)
                } else {
                    invalid
                },
            },
        },
        StaticForm::Binary { operator, left_truth, value, lhs_value, rhs_value, lhs, rhs } => match static_initializer_spec(
            *lhs,
        ) {
            Err(f) => Err(f),
            Ok(left) => if (operator == StaticOperator::LogicalAnd && left_truth == Some(false)) || (operator
                == StaticOperator::LogicalOr && left_truth == Some(true)) {
                Ok(ConstantKind::Arithmetic)
            } else {
                match static_initializer_spec(*rhs) {
                    Err(f) => Err(f),
                    Ok(right) => if left == ConstantKind::Arithmetic && right == ConstantKind::Arithmetic {
                        match value {
                            Err(e) => Err(StaticFailure::Fact(e)),
                            Ok(()) => Ok(ConstantKind::Arithmetic),
                        }
                    } else if left == ConstantKind::Address && right == ConstantKind::Arithmetic && (operator
                        == StaticOperator::Plus || operator == StaticOperator::Minus) {
                        match rhs_value {
                            Err(e) => Err(StaticFailure::Fact(e)),
                            Ok(()) => Ok(ConstantKind::Address),
                        }
                    } else if left == ConstantKind::Arithmetic && right == ConstantKind::Address && operator
                        == StaticOperator::Plus {
                        match lhs_value {
                            Err(e) => Err(StaticFailure::Fact(e)),
                            Ok(()) => Ok(ConstantKind::Address),
                        }
                    } else {
                        invalid
                    },
                }
            },
        },
        StaticForm::Conditional { condition, branch } => match static_initializer_spec(*condition) {
            Err(f) => Err(f),
            Ok(kind) => match branch {
                Err(e) => Err(StaticFailure::Fact(e)),
                Ok(None) => Ok(kind),
                Ok(Some(selected)) => static_initializer_spec(*selected),
            },
        },
        StaticForm::Selected(selected) => match selected {
            Err(e) => Err(StaticFailure::Fact(e)),
            Ok(operand) => static_initializer_spec(*operand),
        },
        StaticForm::Other => invalid,
    }
}

fn not_constant(offset: usize) -> (e: Error)
    ensures
        reports_failure(e, StaticFailure::Invalid(offset)),
{
    Error::new(offset, "static storage initializer is not a constant expression")
}

fn fact_unit(f: &Result<(), Error>) -> (r: Result<(), Error>)
    ensures
        match r {
            Ok(()) => *f is Ok,
            Err(e) => *f == Err::<(), Error>(e),
        },
{
    match f {
        Ok(()) => Ok(()),
        Err(e) => Err(e.duplicate()),
    }
}

/// Checks that an expression is a constant a static storage initializer can
/// hold, and says which kind: an arithmetic constant (constants, folded
/// builtins, `sizeof`, arithmetic on such), or an address constant (string
/// literals, static arrays and functions, `&` of a static lvalue, an
/// address plus or minus an integer, a pointer cast). A `&&` or `||` whose
/// left operand decides it is arithmetic whatever its right operand.
pub fn static_initializer(node: &StaticNode) -> (r: Result<ConstantKind, Error>)
    ensures
        reports_static(r, static_initializer_spec(*node)),
    decreases node,
{
    let offset = node.offset;
    match &node.form {
        StaticForm::Statement => Err(Error::new(offset, "constant evaluation of statement expressions is unsupported")),
        StaticForm::Evaluated(outcome) => {
            fact_unit(outcome)?;
            Ok(ConstantKind::Arithmetic)
        },
        StaticForm::CompoundLiteral { array, in_function_body } => {
            if fact_bool(array)? {
                if *in_function_body {
                    return Err(not_constant(offset));
                }
                Ok(ConstantKind::Address)
            } else {
                Ok(ConstantKind::Arithmetic)
            }
        },
        StaticForm::StringLiteral => Ok(ConstantKind::Address),
        StaticForm::Designator { array_or_function, lvalue } => {
            if fact_bool(array_or_function)? {
                fact_unit(lvalue)?;
                Ok(ConstantKind::Address)
            } else {
                Err(not_constant(offset))
            }
        },
        StaticForm::Identifier { constant, static_designator } => {
            if *constant {
                return Ok(ConstantKind::Arithmetic);
            }
            if fact_bool(static_designator)? {
                Ok(ConstantKind::Address)
            } else {
                Err(not_constant(offset))
            }
        },
        StaticForm::Address(lvalue) => {
            fact_unit(lvalue)?;
            Ok(ConstantKind::Address)
        },
        StaticForm::Unary(operand) => {
            if static_initializer(operand)? == ConstantKind::Arithmetic {
                Ok(ConstantKind::Arithmetic)
            } else {
                Err(not_constant(offset))
            }
        },
        StaticForm::Cast { pointer, operand_value, operand } => {
            let kind = static_initializer(operand)?;
            if fact_bool(pointer)? {
                if kind == ConstantKind::Arithmetic {
                    fact_unit(operand_value)?;
                }
                Ok(ConstantKind::Address)
            } else if kind == ConstantKind::Arithmetic {
                Ok(kind)
            } else {
                Err(not_constant(offset))
            }
        },
        StaticForm::Binary { operator, left_truth, value, lhs_value, rhs_value, lhs, rhs } => {
            let left = static_initializer(lhs)?;
            if (*operator == StaticOperator::LogicalAnd && *left_truth == Some(false)) || (*operator
                == StaticOperator::LogicalOr && *left_truth == Some(true)) {
                return Ok(ConstantKind::Arithmetic);
            }
            let right = static_initializer(rhs)?;
            if left == ConstantKind::Arithmetic && right == ConstantKind::Arithmetic {
                fact_unit(value)?;
                Ok(ConstantKind::Arithmetic)
            } else if left == ConstantKind::Address && right == ConstantKind::Arithmetic && (*operator
                == StaticOperator::Plus || *operator == StaticOperator::Minus) {
                fact_unit(rhs_value)?;
                Ok(ConstantKind::Address)
            } else if left == ConstantKind::Arithmetic && right == ConstantKind::Address && *operator
                == StaticOperator::Plus {
                fact_unit(lhs_value)?;
                Ok(ConstantKind::Address)
            } else {
                Err(not_constant(offset))
            }
        },
        StaticForm::Conditional { condition, branch } => {
            let kind = static_initializer(condition)?;
            match branch {
                Err(e) => Err(e.duplicate()),
                Ok(None) => Ok(kind),
                Ok(Some(selected)) => static_initializer(selected),
            }
        },
        StaticForm::Selected(selected) => match selected {
            Err(e) => Err(e.duplicate()),
            Ok(operand) => static_initializer(operand),
        },
        StaticForm::Other => Err(not_constant(offset)),
    }
}

/// What an initializer's entry checks read of the object type it
/// initializes, each fact with its error, consulted only where the rules
/// reach it.
#[derive(Debug)]
pub struct InitializedType {
    pub variable_length: Result<bool, Error>,
    /// An array of unknown length, which its initializer completes.
    pub incomplete_array: bool,
    /// Whether the type is a complete, definite object type.
    pub definite: Result<bool, Error>,
    /// Whether the type is a sizeless (SVE) type.
    pub sizeless: Result<bool, Error>,
}

/// The entry rules of every initializer: no variable-length array, a
/// complete object type (or an array its initializer completes), and no
/// sizeless type where a constant is required.
pub open spec fn initialized_type_spec(t: InitializedType, requires_constant: bool) -> Result<(), Result<Seq<char>, Error>> {
    match t.variable_length {
        Err(e) => Err(Err(e)),
        Ok(true) => Err(Ok("variable-length arrays cannot have initializers"@)),
        Ok(false) => if !t.incomplete_array && t.definite is Err {
            Err(Err(t.definite->Err_0))
        } else if !t.incomplete_array && t.definite == Ok::<bool, Error>(false) {
            Err(Ok("initializer requires a complete object type"@))
        } else if requires_constant && t.sizeless is Err {
            Err(Err(t.sizeless->Err_0))
        } else if requires_constant && t.sizeless == Ok::<bool, Error>(true) {
            Err(Ok("objects with static or thread storage cannot have sizeless SVE type"@))
        } else {
            Ok(())
        },
    }
}

/// Checks the entry rules of an initializer at `offset`.
pub fn check_initialized_type(t: &InitializedType, requires_constant: bool, offset: usize) -> (r: Result<(), Error>)
    ensures
        match (r, initialized_type_spec(*t, requires_constant)) {
            (Ok(()), Ok(())) => true,
            (Err(e), Err(Ok(m))) => e.offset == offset && e.message@ == m,
            (Err(e), Err(Err(f))) => e == f,
            _ => false,
        },
{
    proof {
        reveal_strlit("variable-length arrays cannot have initializers");
        reveal_strlit("initializer requires a complete object type");
        reveal_strlit("objects with static or thread storage cannot have sizeless SVE type");
    }
    if fact_bool(&t.variable_length)? {
        return Err(Error::new(offset, "variable-length arrays cannot have initializers"));
    }
    if !t.incomplete_array && !fact_bool(&t.definite)? {
        return Err(Error::new(offset, "initializer requires a complete object type"));
    }
    if requires_constant && fact_bool(&t.sizeless)? {
        return Err(Error::new(offset, "objects with static or thread storage cannot have sizeless SVE type"));
    }
    Ok(())
}

/// A braced initializer of a scalar holds no value, or one value without a
/// designator: whether it holds one, or the diagnostic at `offset`.
pub fn scalar_braces(items: usize, first_designated: bool, offset: usize) -> (r: Result<bool, Error>)
    ensures
        r is Ok <==> items == 0 || (items == 1 && !first_designated),
        r matches Ok(one) ==> one == (items == 1),
        r matches Err(e) ==> e.offset == offset && e.message@ == (if items > 1 {
            "scalar initializer requires one value"@
        } else {
            "scalar initializer cannot have a designator"@
        }),
{
    if items == 0 {
        return Ok(false);
    }
    if items > 1 {
        return Err(Error::new(offset, "scalar initializer requires one value"));
    }
    if first_designated {
        return Err(Error::new(offset, "scalar initializer cannot have a designator"));
    }
    Ok(true)
}

/// A vector lane initializer has no designator and no nested braces.
pub fn vector_lane_item(designated: bool, braced: bool, offset: usize) -> (r: Result<(), Error>)
    ensures
        r is Ok <==> !designated && !braced,
        r matches Err(e) ==> e.offset == offset && e.message@ == (if designated {
            "vector initializers cannot have designators"@
        } else {
            "nested braces in vector lane initializers are unsupported"@
        }),
{
    if designated {
        return Err(Error::new(offset, "vector initializers cannot have designators"));
    }
    if braced {
        return Err(Error::new(offset, "nested braces in vector lane initializers are unsupported"));
    }
    Ok(())
}

/// The array bound after an item initializes top-level element `index`: the
/// larger of `bound` and `index + 1`, which must fit.
pub fn extend_bound(bound: u64, index: u64, offset: usize) -> (r: Result<u64, Error>)
    ensures
        r is Ok <==> index < u64::MAX,
        r matches Ok(b) ==> b == if bound > index + 1 {
            bound as int
        } else {
            index + 1
        },
        r matches Err(e) ==> e.offset == offset && e.message@ == "initializer array bound overflows"@,
{
    if index == u64::MAX {
        return Err(Error::new(offset, "initializer array bound overflows"));
    }
    let next = index + 1;
    Ok(if bound > next { bound } else { next })
}


/// A string literal may initialize an array of its own element type: for
/// every encoding and character profile, the literal's element type is a
/// character-array element type and matches itself, so `string_initializer`
/// accepts such an array whenever its bound holds the literal; a plain
/// string initializes an array of any of the three character types.
pub proof fn lemma_literal_initializes_own_element_type(
    encoding: StringEncoding,
    profile: CharacterProfile,
    reading: Option<IntegerValue>,
    k: IntegerKind,
)
    ensures
        (k == IntegerKind::Char || k == IntegerKind::SignedChar || k == IntegerKind::UnsignedChar) ==> (
        character_element(TypeKind::Integer(k)) && string_encoding_compatible(
            IntegerKind::Char,
            TypeKind::Integer(k),
            reading,
            reading,
        )),
        character_element(TypeKind::Integer(element_type_spec(encoding, profile))),
        string_encoding_compatible(
            element_type_spec(encoding, profile),
            TypeKind::Integer(element_type_spec(encoding, profile)),
            reading,
            reading,
        ),
{
}

} // verus!
