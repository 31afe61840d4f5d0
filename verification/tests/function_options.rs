use toucan_semantic::builtins::{
    check_nontemporal_access, check_prefetch_call, check_prefetch_value_operation, nontemporal_store_checks_assignment, sync_signature,
    NontemporalAddress, NontemporalOperation, NontemporalValueClass, PrefetchOperand, SyncAddress, SyncObjectClass, SyncOperation,
    SyncResult,
};
use toucan_semantic::noescape::{intern, noescape_parameters, parameter_contracts, same_parameter_contracts, ParameterContracts};
use toucan_semantic::profile::{Compiler, Target};
use toucan_semantic::target_features::{
    current_x86_features, merge_function_options, FeatureUse, FeatureUses, FunctionAttributes, FunctionOptions,
    MinimumVectorWidth, ParsedTarget, X86Feature, X86TargetOption,
};

fn parsed(start: usize, clang: bool, arguments: &[&str]) -> ParsedTarget {
    ParsedTarget { span_start: start, clang, arguments: arguments.iter().map(|a| a.to_string()).collect(), error: None }
}

fn attributes(targets: Vec<ParsedTarget>) -> FunctionAttributes {
    FunctionAttributes { target_attributes: targets, always_inline: None, no_inline: None, minimum_vector_width: vec![] }
}

const X86: Target = Target::X86_64UnknownLinuxGnu;

#[test]
fn gnu_takes_the_last_target_attribute() {
    let merged = merge_function_options(
        FunctionOptions::default(),
        &attributes(vec![parsed(10, false, &["lzcnt"]), parsed(30, false, &["bmi", "bmi2"])]),
        false,
        Compiler::Gnu,
        X86,
    )
    .unwrap();
    let target = merged.target().unwrap();
    assert_eq!(target.options(), &[X86TargetOption::Bmi, X86TargetOption::Bmi2]);
    assert!(target.enables(X86Feature::Bmi2));
    assert!(!target.enables(X86Feature::Lzcnt));
}

#[test]
fn clang_takes_the_first_target_attribute() {
    let merged = merge_function_options(
        FunctionOptions::default(),
        &attributes(vec![parsed(30, true, &["bmi"]), parsed(10, true, &["lzcnt"])]),
        false,
        Compiler::Clang,
        X86,
    )
    .unwrap();
    let target = merged.target().unwrap();
    assert_eq!(target.clang_spelling(), Some("lzcnt"));
    assert_eq!(current_x86_features(Some(&merged), X86), 1 | 2 | 4 | 8);
    assert_eq!(current_x86_features(None, X86), 7);
    assert_eq!(current_x86_features(None, Target::I686UnknownLinuxGnu), 0);
}

#[test]
fn target_histories_must_agree() {
    let first = merge_function_options(FunctionOptions::default(), &attributes(vec![parsed(1, false, &["bmi"])]), false, Compiler::Gnu, X86).unwrap();
    let same = merge_function_options(first, &attributes(vec![parsed(9, false, &["bmi"])]), false, Compiler::Gnu, X86).unwrap();
    let error = merge_function_options(same, &attributes(vec![parsed(20, false, &["lzcnt"])]), false, Compiler::Gnu, X86).unwrap_err();
    assert_eq!(error.offset, 20);
    assert_eq!(error.message, "merging different GNU target attribute histories is unsupported");
    let late = merge_function_options(FunctionOptions::default(), &attributes(vec![parsed(5, false, &["bmi"])]), true, Compiler::Gnu, X86).unwrap_err();
    assert_eq!(late.message, "GNU target attributes added after a definition are unsupported");
    // Clang ignores target annotations first seen after a definition.
    let ignored = merge_function_options(FunctionOptions::default(), &attributes(vec![parsed(5, true, &["bmi"])]), true, Compiler::Clang, X86).unwrap();
    assert!(ignored.target().is_none());
    let unknown = merge_function_options(FunctionOptions::default(), &attributes(vec![parsed(5, false, &["avx512"])]), false, Compiler::Gnu, X86);
    assert!(unknown.is_err());
    let arm = merge_function_options(FunctionOptions::default(), &attributes(vec![parsed(5, false, &["bmi"])]), false, Compiler::Gnu, Target::Aarch64UnknownLinuxGnu);
    assert!(arm.is_err());
}

#[test]
fn inline_annotations_and_vector_width() {
    let mut both = attributes(vec![]);
    both.always_inline = Some((40, false));
    both.no_inline = Some((20, false));
    both.minimum_vector_width = vec![MinimumVectorWidth { start: 50, value: 512 }, MinimumVectorWidth { start: 45, value: 256 }];
    let gnu = merge_function_options(FunctionOptions::default(), &both, false, Compiler::Gnu, X86).unwrap();
    assert!(!gnu.always_inline());
    assert!(gnu.no_inline());
    assert_eq!(gnu.minimum_vector_width(), Some(256));
    let clang = merge_function_options(FunctionOptions::default(), &both, false, Compiler::Clang, X86).unwrap();
    assert!(clang.always_inline());
    assert!(clang.no_inline());
    let after = merge_function_options(FunctionOptions::default(), &both, true, Compiler::Clang, X86).unwrap();
    assert!(!after.always_inline());
    assert_eq!(after.minimum_vector_width(), None);
    let mut malformed = attributes(vec![]);
    malformed.no_inline = Some((7, true));
    let error = merge_function_options(FunctionOptions::default(), &malformed, false, Compiler::Gnu, X86).unwrap_err();
    assert_eq!(error.message, "noinline takes no arguments");
}

#[test]
fn feature_uses_are_bounded() {
    let mut uses = FeatureUses::new();
    uses.push_feature_use(FeatureUse::Sve(3), 3).unwrap();
    uses.require_x86_features(Compiler::Clang, false, 7, "_lzcnt_u32", &[X86Feature::Sse, X86Feature::Lzcnt], 9).unwrap();
    uses.require_x86_features(Compiler::Gnu, false, 7, "_lzcnt_u32", &[X86Feature::Lzcnt], 9).unwrap();
    uses.require_inline_features(false, X86, Compiler::Gnu, Some("callee"), 0, None, false, 11).unwrap();
    uses.require_inline_features(false, X86, Compiler::Gnu, Some("callee"), 7, None, false, 11).unwrap();
    uses.require_inline_features(false, X86, Compiler::Clang, Some("callee"), 0, None, false, 11).unwrap();
    uses.require_inline_features(false, Target::Aarch64UnknownLinuxGnu, Compiler::Gnu, Some("callee"), 0, None, true, 11).unwrap();
    for i in 0..65533 {
        uses.push_feature_use(FeatureUse::Sve(i), i).unwrap();
    }
    assert!(uses.push_feature_use(FeatureUse::Sve(1), 1).is_err());
}

#[test]
fn prefetch_calls_and_hints() {
    assert!(check_prefetch_value_operation(true, 0).is_err());
    assert!(check_prefetch_value_operation(false, 0).is_ok());
    let hint = |value: u128| Some(PrefetchOperand { integer_constant: true, value, start: 4 });
    assert!(check_prefetch_call(Compiler::Clang, 3, hint(1), hint(3), 0).is_ok());
    assert_eq!(check_prefetch_call(Compiler::Clang, 3, hint(2), hint(3), 0).unwrap_err().message, "prefetch hint must be in 0..=1");
    assert!(check_prefetch_call(Compiler::Gnu, 3, hint(2), hint(9), 0).is_ok());
    assert!(check_prefetch_call(Compiler::Clang, 4, None, None, 0).is_err());
    assert!(check_prefetch_call(Compiler::Gnu, 4, None, None, 0).is_ok());
    assert!(check_prefetch_call(Compiler::Gnu, 0, None, None, 0).is_err());
    let variable = Some(PrefetchOperand { integer_constant: false, value: 0, start: 4 });
    assert!(check_prefetch_call(Compiler::Clang, 2, variable, None, 0).is_err());
}

#[test]
fn contract_sets_are_shared_and_compared() {
    let mut contracts: Vec<ParameterContracts> = Vec::new();
    let a = intern(&mut contracts, &[0, 2], 0).unwrap().unwrap();
    let b = intern(&mut contracts, &[1], 0).unwrap().unwrap();
    let again = intern(&mut contracts, &[0, 2], 0).unwrap().unwrap();
    assert_eq!(a, again);
    assert_eq!(contracts.len(), 2);
    assert_eq!(parameter_contracts(&contracts, b).unwrap().no_escape, vec![1]);
    assert_eq!(noescape_parameters(&contracts, Some(a)).unwrap(), &[0, 2]);
    assert!(noescape_parameters(&contracts, None).unwrap().is_empty());
    assert!(same_parameter_contracts(&contracts, Some(a), Some(again)).unwrap());
    assert!(!same_parameter_contracts(&contracts, Some(a), Some(b)).unwrap());
    assert!(!same_parameter_contracts(&contracts, Some(a), None).unwrap());
    assert!(same_parameter_contracts(&contracts, None, None).unwrap());
}

fn int_object() -> SyncAddress {
    SyncAddress { pointer: true, atomic: false, class: SyncObjectClass::Integer, complete: true, size_bytes: 4, pointee_const: false }
}

#[test]
fn sync_signature_results() {
    let object = int_object();
    assert_eq!(sync_signature(SyncOperation::FetchAdd, true, 2, object, 0).ok(), Some(SyncResult::Value));
    assert_eq!(sync_signature(SyncOperation::BoolCompareAndSwap, true, 3, object, 0).ok(), Some(SyncResult::Bool));
    assert_eq!(sync_signature(SyncOperation::LockRelease, true, 1, object, 0).ok(), Some(SyncResult::Void));
    assert_eq!(sync_signature(SyncOperation::Synchronize, true, 0, object, 0).ok(), Some(SyncResult::Void));
    assert!(sync_signature(SyncOperation::Synchronize, true, 1, object, 0).is_err());
    assert!(sync_signature(SyncOperation::BoolCompareAndSwap, true, 2, object, 0).is_err());
}

#[test]
fn sync_signature_object_checks() {
    let object = int_object();
    let odd = SyncAddress { size_bytes: 3, ..object };
    assert!(sync_signature(SyncOperation::FetchAdd, true, 2, odd, 0).is_err());
    let boolean = SyncAddress { class: SyncObjectClass::Bool, size_bytes: 1, ..object };
    assert!(sync_signature(SyncOperation::FetchAdd, true, 2, boolean, 0).is_err());
    assert_eq!(sync_signature(SyncOperation::FetchAdd, false, 2, boolean, 0).ok(), Some(SyncResult::Value));
    assert_eq!(sync_signature(SyncOperation::LockTestAndSet, true, 2, boolean, 0).ok(), Some(SyncResult::Value));
    let constant = SyncAddress { pointee_const: true, ..object };
    assert!(sync_signature(SyncOperation::FetchAdd, false, 2, constant, 0).is_err());
    assert_eq!(sync_signature(SyncOperation::FetchAdd, true, 2, constant, 0).ok(), Some(SyncResult::Value));
    let atomic = SyncAddress { atomic: true, ..object };
    assert!(sync_signature(SyncOperation::FetchAdd, false, 2, atomic, 0).is_err());
    let incomplete = SyncAddress { complete: false, ..object };
    assert!(sync_signature(SyncOperation::FetchAdd, true, 2, incomplete, 0).is_err());
    let not_pointer = SyncAddress { pointer: false, ..object };
    assert!(sync_signature(SyncOperation::FetchAdd, true, 2, not_pointer, 0).is_err());
}

#[test]
fn nontemporal_access_checks() {
    let scalar = NontemporalAddress { pointer: true, class: NontemporalValueClass::Scalar, enum_complete: true, complete: true };
    assert!(check_nontemporal_access(NontemporalOperation::Load, false, false, 1, scalar, 0).is_ok());
    assert!(check_nontemporal_access(NontemporalOperation::Store, false, false, 2, scalar, 0).is_ok());
    assert!(check_nontemporal_access(NontemporalOperation::Store, false, false, 1, scalar, 0).is_err());
    assert!(check_nontemporal_access(NontemporalOperation::Load, true, false, 1, scalar, 0).is_err());
    let record = NontemporalAddress { class: NontemporalValueClass::Other, ..scalar };
    assert!(check_nontemporal_access(NontemporalOperation::Load, false, false, 1, record, 0).is_err());
    let forward = NontemporalAddress { class: NontemporalValueClass::Enum, enum_complete: false, ..scalar };
    assert!(check_nontemporal_access(NontemporalOperation::Load, false, true, 1, forward, 0).is_err());
    let not_pointer = NontemporalAddress { pointer: false, ..scalar };
    assert!(check_nontemporal_access(NontemporalOperation::Load, false, false, 1, not_pointer, 0).is_err());
    assert!(!nontemporal_store_checks_assignment(true, true, 128, 128));
    assert!(nontemporal_store_checks_assignment(true, true, 128, 256));
    assert!(nontemporal_store_checks_assignment(false, false, 32, 32));
}
