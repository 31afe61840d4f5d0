//! GNU transparent unions: which unions may carry the attribute, which type
//! a transparent parameter is passed as, and where a typedef with the
//! attribute puts it.

use crate::error::Error;
use crate::ir::{FloatKind, TypeKind};
use crate::profile::{Compiler, Target};
use std::collections::BTreeMap;
use vstd::prelude::*;

verus! {

/// How a resolved member type takes part in transparent passing.
#[derive(Clone, Copy, Debug, PartialEq, Eq, Structural)]
pub enum MemberClass {
    /// `_Bool`, an integer or an enumeration.
    Integer,
    Pointer,
    /// `float` or `double`.
    Floating,
    Other,
}

/// The class of a resolved member type.
pub open spec fn member_class_of(kind: TypeKind) -> MemberClass {
    match kind {
        TypeKind::Bool | TypeKind::Integer(_) | TypeKind::Enum(_) => MemberClass::Integer,
        TypeKind::Pointer(_) => MemberClass::Pointer,
        TypeKind::Float(FloatKind::Float) | TypeKind::Float(FloatKind::Double) => MemberClass::Floating,
        _ => MemberClass::Other,
    }
}

/// The class of a resolved member type.
pub fn member_class(kind: &TypeKind) -> (r: MemberClass)
    ensures
        r == member_class_of(*kind),
{
    match kind {
        TypeKind::Bool | TypeKind::Integer(_) | TypeKind::Enum(_) => MemberClass::Integer,
        TypeKind::Pointer(_) => MemberClass::Pointer,
        TypeKind::Float(FloatKind::Float) | TypeKind::Float(FloatKind::Double) => MemberClass::Floating,
        _ => MemberClass::Other,
    }
}

/// What the rules read of one union member: whether it is a bit-field, the
/// class of its resolved type, its size in bits, and the alignment that Clang
/// compares (the larger of its natural and declared alignment).
#[derive(Clone, Copy, Debug, PartialEq, Eq, Structural)]
pub struct TransparentMember {
    pub bit_field: bool,
    pub class: MemberClass,
    pub size_bits: u64,
    pub alignment: u64,
}

/// Whether a union may carry `transparent_union`: it is a complete nonempty
/// union whose first member is a non-bit-field integer or pointer, whose
/// members are all non-bit-field integers, pointers, `float` or `double`;
/// under Clang all members have the first's size and alignment, under GCC the
/// union has the first member's size.
pub open spec fn transparent_record_valid(
    is_union: bool,
    fields: Option<Seq<TransparentMember>>,
    union_size_bits: u64,
    clang: bool,
) -> bool {
    &&& is_union
    &&& fields matches Some(f) && f.len() > 0
    &&& {
        let f = fields->0;
        let first = f[0];
        &&& !first.bit_field
        &&& (first.class == MemberClass::Integer || first.class == MemberClass::Pointer)
        &&& forall|i: int| 0 <= i < f.len() ==> !(#[trigger] f[i]).bit_field && f[i].class != MemberClass::Other
        &&& clang ==> forall|i: int| 0 <= i < f.len() ==> (#[trigger] f[i]).size_bits == first.size_bits
            && f[i].alignment == first.alignment
        &&& !clang ==> union_size_bits == first.size_bits
    }
}

/// Checks that a record may carry `transparent_union`; `fields` is `None`
/// for an incomplete record.
pub fn validate_transparent_record(
    is_union: bool,
    fields: Option<&[TransparentMember]>,
    union_size_bits: u64,
    compiler: Compiler,
    offset: usize,
) -> (r: Result<(), Error>)
    ensures
        r is Ok <==> transparent_record_valid(
            is_union,
            match fields { Some(f) => Some(f@), None => None },
            union_size_bits,
            compiler != Compiler::Gnu,
        ),
{
    let clang = match compiler {
        Compiler::Gnu => false,
        Compiler::Clang => true,
    };
    if !is_union {
        return Err(Error::new(offset, "transparent_union requires a union type"));
    }
    let members = match fields {
        Some(members) if members.len() > 0 => members,
        _ => {
            return Err(Error::new(offset, "transparent_union requires a complete nonempty union"));
        },
    };
    let first = members[0];
    if first.bit_field || !(first.class == MemberClass::Integer || first.class == MemberClass::Pointer) {
        return Err(Error::new(offset, "transparent_union first-member ABI is supported only for non-bitfield integers and pointers"));
    }
    let mut i: usize = 0;
    while i < members.len()
        invariant
            i <= members@.len(),
            fields == Some(members),
            clang == (compiler != Compiler::Gnu),
            members@.len() > 0,
            first == members@[0],
            forall|j: int| 0 <= j < i ==> !(#[trigger] members@[j]).bit_field && members@[j].class != MemberClass::Other,
            clang ==> forall|j: int| 0 <= j < i ==> (#[trigger] members@[j]).size_bits == first.size_bits
                && members@[j].alignment == first.alignment,
        decreases members.len() - i,
    {
        let field = members[i];
        assert(members@[i as int] == field);
        if field.bit_field || field.class == MemberClass::Other {
            return Err(Error::new(offset, "transparent_union members require supported scalar representations"));
        }
        if clang && (field.size_bits != first.size_bits || field.alignment != first.alignment) {
            return Err(Error::new(offset, "transparent_union members must have equal type widths and alignments on this target"));
        }
        i = i + 1;
    }
    if !clang && union_size_bits != first.size_bits {
        return Err(Error::new(offset, "transparent_union first-member representation differs from the union"));
    }
    Ok(())
}

/// The record a nominal GNU typedef variant was made from: `record` itself
/// when it has no entry in `origins`. Both identities must be records of the
/// unit (`records` many), and an origin is never itself a variant.
pub fn record_origin(origins: &BTreeMap<usize, usize>, records: usize, record: usize) -> (r: Result<usize, Error>)
    ensures
        ({
            let origin = if origins@.contains_key(record) { origins@[record] } else { record };
            &&& r is Ok <==> record < records && origin < records && !origins@.contains_key(origin)
            &&& r matches Ok(o) ==> o == origin
        }),
{
    broadcast use vstd::std_specs::btree::group_btree_axioms;

    let origin = match origins.get(&record) {
        Some(origin) => *origin,
        None => record,
    };
    if record >= records || origin >= records || origins.contains_key(&origin) {
        return Err(Error::new(0, "invalid source record identity"));
    }
    Ok(origin)
}

/// The type a fixed parameter is passed as.
#[derive(Clone, Copy, Debug, PartialEq, Eq, Structural)]
pub enum ParameterAbi {
    /// The parameter's own type.
    Declared,
    /// The transparent union's first member.
    FirstMember,
}

/// Whether a target uses the AArch64 instruction set.
pub open spec fn is_aarch64(target: Target) -> bool {
    target is Aarch64UnknownLinuxGnu || target is Aarch64UnknownLinuxMusl
        || target is Aarch64AppleDarwin || target is Aarch64PcWindowsMsvc
}

/// How an adjusted fixed parameter is passed: an ordinary parameter as
/// itself; a transparent union (which needs a first member) as itself on
/// x86-64 MSVC, and otherwise as its first member, except that AArch64
/// cannot pass a union with tail padding as one parameter.
pub fn parameter_abi(
    transparent: bool,
    has_first_member: bool,
    target: Target,
    union_size_bits: u64,
    first_size_bits: u64,
) -> (r: Result<ParameterAbi, Error>)
    ensures
        !transparent ==> r == Ok::<ParameterAbi, Error>(ParameterAbi::Declared),
        transparent ==> {
            &&& r is Ok <==> has_first_member && (target is X86_64PcWindowsMsvc || !is_aarch64(target)
                || union_size_bits == first_size_bits)
            &&& r is Ok ==> r == Ok::<ParameterAbi, Error>(if target is X86_64PcWindowsMsvc {
                ParameterAbi::Declared
            } else {
                ParameterAbi::FirstMember
            })
        },
{
    if !transparent {
        return Ok(ParameterAbi::Declared);
    }
    if !has_first_member {
        return Err(Error::new(0, "transparent_union requires a complete nonempty union"));
    }
    let aarch64 = match target {
        Target::X86_64PcWindowsMsvc => {
            return Ok(ParameterAbi::Declared);
        },
        Target::Aarch64UnknownLinuxGnu | Target::Aarch64UnknownLinuxMusl | Target::Aarch64AppleDarwin
        | Target::Aarch64PcWindowsMsvc => true,
        _ => false,
    };
    if aarch64 && union_size_bits != first_size_bits {
        return Err(Error::new(0, "AArch64 transparent_union padding ABI cannot be represented by one parameter type"));
    }
    Ok(ParameterAbi::FirstMember)
}

/// Where a typedef's `transparent_union` attribute takes effect.
#[derive(Clone, Copy, Debug, PartialEq, Eq, Structural)]
pub enum TransparentTypedefAction {
    /// The existing union's identity becomes transparent.
    UpdateRecord,
    /// A distinct nominal copy of the union is made transparent.
    CreateVariant,
}

/// Where a typedef's attribute takes effect, given whether the typedef names
/// an existing typedef (`named_alias`), whether its base came through a
/// typedef (`typedef_base`), and whether it came through `typeof` without a
/// preserved typedef identity (`unknown_typedef_origin`). Clang updates the
/// tag; GCC does so through an existing typedef and otherwise makes a
/// distinct nominal variant, which a `typeof` base without identity cannot
/// have.
pub fn transparent_typedef_action(
    compiler: Compiler,
    unknown_typedef_origin: bool,
    typedef_base: bool,
    named_alias: bool,
    offset: usize,
) -> (r: Result<TransparentTypedefAction, Error>)
    ensures
        ({
            let clang = compiler != Compiler::Gnu;
            &&& r is Ok <==> clang || !unknown_typedef_origin || named_alias
            &&& r is Ok ==> r == Ok::<TransparentTypedefAction, Error>(
                if clang || typedef_base || named_alias {
                    TransparentTypedefAction::UpdateRecord
                } else {
                    TransparentTypedefAction::CreateVariant
                },
            )
        }),
{
    let clang = match compiler {
        Compiler::Gnu => false,
        Compiler::Clang => true,
    };
    if !clang && unknown_typedef_origin && !named_alias {
        return Err(Error::new(offset, "GNU transparent_union attributes through typeof require a preserved typedef identity"));
    }
    if clang || typedef_base || named_alias {
        Ok(TransparentTypedefAction::UpdateRecord)
    } else {
        Ok(TransparentTypedefAction::CreateVariant)
    }
}

/// A definition may not be merged with a redeclaration that passes one of
/// its transparent-union parameters as a member type instead. `parameters`
/// pairs, position by position, whether the earlier and the new
/// declaration's parameter is a transparent union.
pub fn check_transparent_definition_merge(
    previous_definition: bool,
    definition: bool,
    parameters: &[(bool, bool)],
    offset: usize,
) -> (r: Result<(), Error>)
    ensures
        r is Ok <==> forall|i: int| 0 <= i < parameters@.len() ==> !({
            let (left, right) = #[trigger] parameters@[i];
            (previous_definition && left && !right) || (definition && right && !left)
        }),
{
    if !previous_definition && !definition {
        return Ok(());
    }
    let mut i: usize = 0;
    while i < parameters.len()
        invariant
            i <= parameters@.len(),
            forall|j: int| 0 <= j < i ==> !({
                let (left, right) = #[trigger] parameters@[j];
                (previous_definition && left && !right) || (definition && right && !left)
            }),
        decreases parameters.len() - i,
    {
        let (left, right) = parameters[i];
        if (previous_definition && left && !right) || (definition && right && !left) {
            return Err(Error::new(offset, "transparent_union definitions with member-typed redeclarations are unsupported"));
        }
        i = i + 1;
    }
    Ok(())
}

} // verus!
