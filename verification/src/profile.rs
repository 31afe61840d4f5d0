//! The compiler families and physical targets whose rules this library models.

use vstd::prelude::*;

verus! {

/// A supported physical target. Properties that vary by target are passed to
/// the functions that need them as plain values.
#[derive(Clone, Copy, Debug, PartialEq, Eq, Hash, Structural)]
pub enum Target {
    I686UnknownLinuxGnu,
    X86_64UnknownLinuxGnu,
    X86_64UnknownLinuxMusl,
    X86_64AppleDarwin,
    X86_64PcWindowsMsvc,
    Aarch64UnknownLinuxGnu,
    Aarch64UnknownLinuxMusl,
    Aarch64AppleDarwin,
    Aarch64PcWindowsMsvc,
}

/// The compiler whose language extensions and diagnostics are modelled.
#[derive(Clone, Copy, Debug, PartialEq, Eq, Hash, Structural)]
pub enum Compiler {
    Gnu,
    Clang,
}

/// Whether a target uses the x86 instruction set.
pub open spec fn is_x86_spec(target: Target) -> bool {
    target is I686UnknownLinuxGnu || target is X86_64UnknownLinuxGnu
        || target is X86_64UnknownLinuxMusl || target is X86_64AppleDarwin
        || target is X86_64PcWindowsMsvc
}

/// Whether a target uses the x86 instruction set.
pub fn is_x86(target: Target) -> (r: bool)
    ensures
        r == is_x86_spec(target),
{
    match target {
        Target::I686UnknownLinuxGnu | Target::X86_64UnknownLinuxGnu
        | Target::X86_64UnknownLinuxMusl | Target::X86_64AppleDarwin
        | Target::X86_64PcWindowsMsvc => true,
        _ => false,
    }
}

/// The GNU Linux targets whose legacy `__sync` and object-size rules follow GCC.
pub open spec fn gnu_sync_profile_spec(target: Target) -> bool {
    target is X86_64UnknownLinuxGnu || target is Aarch64UnknownLinuxGnu
}

/// The GNU Linux targets whose legacy `__sync` and object-size rules follow GCC.
pub fn gnu_sync_profile(target: Target) -> (r: bool)
    ensures
        r == gnu_sync_profile_spec(target),
{
    match target {
        Target::X86_64UnknownLinuxGnu | Target::Aarch64UnknownLinuxGnu => true,
        _ => false,
    }
}

} // verus!
