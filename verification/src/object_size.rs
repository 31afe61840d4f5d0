//! The object-size builtins: their names, their prototype, and the mode
//! argument they accept.

use crate::error::Error;
use crate::integer::{integer_to_type, kind_for, kind_shape, size_value, size_value_spec};
use crate::ir::{IntegerKind, IntegerValue, Qualifiers, Type, TypeKind};
use crate::profile::Compiler;
use crate::text::{chars, chars_equal};
use vstd::prelude::*;

verus! {

/// Whether a callee name is one of the object-size builtins.
pub open spec fn object_size_builtin_name(name: Seq<char>) -> bool {
    name == "__builtin_object_size"@ || name == "__builtin_dynamic_object_size"@
}

/// Whether a callee name is `__builtin_object_size` or
/// `__builtin_dynamic_object_size`.
pub fn is_object_size_builtin(name: &str) -> (r: bool)
    ensures
        r == object_size_builtin_name(name@),
{
    let t = chars(name);
    chars_equal(t.as_slice(), "__builtin_object_size") || chars_equal(t.as_slice(), "__builtin_dynamic_object_size")
}

/// The prototype of an object-size builtin: `size_t (const void *, int)`.
#[derive(Debug)]
pub struct ObjectSizeSignature {
    pub result: Type,
    pub parameters: [Type; 2],
}

/// The prototype of the builtin `name`, if it is an object-size builtin, on
/// a target whose pointers and `long` have the given widths.
pub fn object_size_signature(name: &str, pointer_width: u8, long_width: u8) -> (r: Option<ObjectSizeSignature>)
    requires
        pointer_width == 32 || pointer_width == 64,
    ensures
        r is Some <==> object_size_builtin_name(name@),
        r matches Some(s) ==> {
            let size = crate::integer::size_value_spec(0, pointer_width, long_width);
            &&& s.result.kind == TypeKind::Integer(kind_for(size.rank, false))
            &&& s.parameters[0].kind matches TypeKind::Pointer(p) && p.kind == TypeKind::Void
                && p.qualifiers@.is_const && !p.qualifiers@.is_volatile && !p.qualifiers@.is_restrict
            &&& s.parameters[0].qualifiers == Qualifiers::none_spec()
            &&& s.parameters[1].kind == TypeKind::Integer(IntegerKind::Int)
            &&& s.parameters[1].qualifiers == Qualifiers::none_spec()
        },
{
    if !is_object_size_builtin(name) {
        return None;
    }
    let mut pointee = Type::new(TypeKind::Void);
    pointee.qualifiers = Qualifiers::none().with_const();
    let result = integer_to_type(size_value(0, pointer_width, long_width));
    let address = pointee.pointer();
    let mode = Type::new(TypeKind::Integer(IntegerKind::Int));
    let parameters = [address, mode];
    assert(parameters[0] == address && parameters[1] == mode);
    Some(ObjectSizeSignature { result, parameters })
}

/// Checks the mode argument of an object-size builtin. Clang requires an
/// integer constant expression (`integer_constant`), GCC also accepts other
/// foldable constants; `converted` is the value after conversion to `int`,
/// or `None` when it cannot be evaluated as a supported constant. The mode
/// is between zero and three.
pub fn check_object_size_mode(
    compiler: Compiler,
    integer_constant: bool,
    converted: Option<IntegerValue>,
    offset: usize,
) -> (r: Result<(), Error>)
    ensures
        r is Ok <==> ((compiler == Compiler::Gnu || integer_constant) && (converted matches Some(v)
            && v.signed_value_spec() >= 0 && v.value <= 3)),
{
    let gnu = match compiler {
        Compiler::Gnu => true,
        Compiler::Clang => false,
    };
    if !gnu && !integer_constant {
        return Err(Error::new(offset, "object-size mode requires an integer constant expression"));
    }
    let value = match converted {
        Some(value) => value,
        None => {
            return Err(Error::new(offset, "object-size mode cannot be evaluated as a supported constant"));
        },
    };
    if value.signed_value() < 0 || value.value > 3 {
        return Err(Error::new(offset, "object-size mode must be between zero and three after conversion to int"));
    }
    Ok(())
}


/// The result type of the object-size builtins, `size_t`, is an unsigned
/// integer type exactly as wide as a pointer, on every target.
pub proof fn lemma_size_type_is_pointer_wide_unsigned(pointer_width: u8, long_width: u8, char_signed: bool)
    requires
        pointer_width == 32 || pointer_width == 64,
        long_width == 32 || long_width == 64,
    ensures
        kind_shape(kind_for(size_value_spec(0, pointer_width, long_width).rank, false), char_signed, long_width).0
            == pointer_width,
        !kind_shape(kind_for(size_value_spec(0, pointer_width, long_width).rank, false), char_signed, long_width).1,
{
}

} // verus!
