use toucan_semantic::ir::SymbolBinding;
use toucan_semantic::object_alignment::DeclarationAlignment;
use toucan_semantic::noreturn::NoreturnRegistry;
use toucan_semantic::parameter_dependencies::{
    CaptureBudget, DependencyCapture, SourceSpan, MAX_BYTES, MAX_REFERENCES,
};
use toucan_semantic::old_style::{
    order_old_style_parameters, OldStyleDeclaration, OldStyleIdentifier, OldStyleItem,
};
use toucan_semantic::profile::Compiler;
use toucan_semantic::scopes::LexicalScopes;
use toucan_semantic::symbol_effects::{FunctionEffectsTable, WeakSymbols};

fn identifier(name: &str, start: usize) -> OldStyleIdentifier {
    OldStyleIdentifier { name: name.to_string(), start, is_typedef: false }
}

fn item(name: &str, start: usize) -> OldStyleItem {
    OldStyleItem {
        name: Some(name.to_string()),
        start,
        has_initializer: false,
        sizeless: false,
        complete: true,
    }
}

fn declaration(start: usize, items: Vec<OldStyleItem>) -> OldStyleDeclaration {
    OldStyleDeclaration { start, starts_with_attribute: false, items }
}

#[test]
fn old_style_declarations_are_matched_to_the_identifier_list() {
    // int f(a, b, c) int c; double a, b; { ... }
    let identifiers = [identifier("a", 6), identifier("b", 9), identifier("c", 12)];
    let declarations = [
        declaration(15, vec![item("c", 19)]),
        declaration(22, vec![item("a", 29), item("b", 32)]),
    ];
    let order = order_old_style_parameters(&identifiers, &declarations, false, 0).unwrap();
    assert_eq!(order, vec![1, 2, 0]);
}

#[test]
fn old_style_rejects_duplicates_typedefs_and_missing_declarations() {
    let duplicate = [identifier("a", 6), identifier("a", 9)];
    let error = order_old_style_parameters(&duplicate, &[], false, 0).unwrap_err();
    assert_eq!(error.offset, 9);
    assert_eq!(error.message, "duplicate identifier in function parameter list");

    let mut typedef = identifier("t", 4);
    typedef.is_typedef = true;
    let error = order_old_style_parameters(&[typedef], &[], false, 0).unwrap_err();
    assert_eq!(error.offset, 4);
    assert_eq!(error.message, "a typedef name cannot appear in an identifier-list definition");

    let mut initialized = item("a", 16);
    initialized.has_initializer = true;
    let error = order_old_style_parameters(&[identifier("a", 6)], &[declaration(12, vec![initialized])], false, 0)
        .unwrap_err();
    assert_eq!(error.offset, 16);
    assert_eq!(error.message, "function parameters cannot have initializers");

    let missing = order_old_style_parameters(&[identifier("a", 6), identifier("b", 9)], &[declaration(12, vec![item("a", 16)])], false, 0)
        .unwrap_err();
    assert_eq!(missing.offset, 9);
    assert_eq!(missing.message, "C11 requires a declaration for every identifier-list parameter");

    let twice = [declaration(12, vec![item("a", 16)]), declaration(20, vec![item("a", 24)])];
    let error = order_old_style_parameters(&[identifier("a", 6)], &twice, false, 0).unwrap_err();
    assert_eq!(error.message, "duplicate parameter declaration");
    assert_eq!(error.offset, 24);

    let absent = [declaration(12, vec![item("z", 16)])];
    assert!(order_old_style_parameters(&[identifier("a", 6)], &absent, false, 0).is_err());

    let mut attributed = declaration(12, vec![item("a", 16)]);
    attributed.starts_with_attribute = true;
    let attributed = [attributed];
    assert!(order_old_style_parameters(&[identifier("a", 6)], &attributed, true, 0).is_err());
    assert_eq!(order_old_style_parameters(&[identifier("a", 6)], &attributed, false, 0).unwrap(), vec![0]);

    let mut incomplete = item("a", 16);
    incomplete.complete = false;
    assert!(order_old_style_parameters(&[identifier("a", 6)], &[declaration(12, vec![incomplete])], false, 0).is_err());
    assert!(order_old_style_parameters(&[identifier("a", 6)], &[declaration(12, vec![])], false, 0).is_err());
}

#[test]
fn noreturn_promises_follow_lexical_scopes() {
    let mut registry = NoreturnRegistry::new();
    assert!(!registry.visible_noreturn("exit", 0));
    registry.record_noreturn("exit", true, true, 0, 0).unwrap();
    registry.record_noreturn("local", true, false, 2, 0).unwrap();
    registry.record_noreturn("ignored", false, true, 0, 0).unwrap();
    assert!(registry.visible_noreturn("exit", 0));
    assert!(registry.visible_noreturn("local", 2));
    assert!(registry.visible_noreturn("local", 3));
    assert!(!registry.visible_noreturn("local", 1));
    assert!(!registry.visible_noreturn("ignored", 5));
    assert!(registry.declaration_noreturn("local", 2, true, false, false, None, None));
    assert!(!registry.declaration_noreturn("local", 2, false, true, true, None, None));
    assert!(registry.declaration_noreturn("other", 1, true, false, false, Some(true), None));
    assert!(!registry.declaration_noreturn("other", 1, true, false, false, Some(false), Some(true)));
    assert!(registry.declaration_noreturn("other", 1, true, false, false, None, Some(true)));
    registry.leave_noreturn_scope(2);
    assert!(!registry.visible_noreturn("local", 3));
    assert!(registry.visible_noreturn("exit", 3));
}

#[test]
fn block_scopes_bind_locals_once_and_track_storage() {
    let mut scopes = LexicalScopes::new();
    assert!(!scopes.in_function_body());
    scopes.enter(false).unwrap();
    scopes.bind_local("p", false, true, 1).unwrap();
    scopes.enter(true).unwrap();
    assert!(scopes.in_function_body());
    scopes.bind_local("x", true, false, 5).unwrap();
    let duplicate = scopes.bind_local("x", false, false, 9).unwrap_err();
    assert_eq!(duplicate.offset, 9);
    assert!(scopes.object_has_static_storage("x", false));
    assert!(!scopes.object_has_static_storage("p", true));
    assert!(scopes.object_has_static_storage("global", true));
    assert!(scopes.is_register_object("p"));
    assert!(!scopes.is_register_object("x"));
    // A nested binding shadows the outer one.
    scopes.enter(true).unwrap();
    scopes.bind_local("p", false, false, 12).unwrap();
    assert!(!scopes.is_register_object("p"));
    scopes.leave();
    assert!(scopes.is_register_object("p"));
    assert_eq!(scopes.depth(), 2);
}

#[test]
fn variably_modified_ancestry_and_scope_limit() {
    let mut scopes = LexicalScopes::new();
    scopes.enter(true).unwrap();
    assert_eq!(scopes.active_variably_modified(), None);
    scopes.declare_variably_modified();
    assert_eq!(scopes.active_variably_modified(), Some(0));
    scopes.enter(true).unwrap();
    assert_eq!(scopes.active_variably_modified(), Some(0));
    scopes.declare_variably_modified();
    assert_eq!(scopes.active_variably_modified(), Some(1));
    scopes.leave();
    assert_eq!(scopes.active_variably_modified(), Some(0));

    let mut deep = LexicalScopes::new();
    for _ in 0..128 {
        deep.enter(true).unwrap();
    }
    assert!(deep.enter(true).is_err());
}

#[test]
fn weak_binding_follows_the_symbol() {
    let mut weak = WeakSymbols::new();
    assert_eq!(weak.check_symbol_binding("f", None, true, false, Compiler::Gnu).unwrap(), SymbolBinding::Strong);
    assert_eq!(weak.check_symbol_binding("f", Some(4), true, false, Compiler::Gnu).unwrap(), SymbolBinding::Weak);
    // Later declarations of the name stay weak; internal ones are strong.
    assert_eq!(weak.check_symbol_binding("f", None, true, true, Compiler::Clang).unwrap(), SymbolBinding::Weak);
    assert_eq!(weak.check_symbol_binding("f", None, false, false, Compiler::Gnu).unwrap(), SymbolBinding::Strong);
    let error = weak.check_symbol_binding("g", Some(7), false, false, Compiler::Gnu).unwrap_err();
    assert_eq!(error.offset, 7);
    assert!(weak.check_symbol_binding("h", Some(3), true, true, Compiler::Clang).is_err());
    assert_eq!(weak.check_symbol_binding("h", Some(3), true, true, Compiler::Gnu).unwrap(), SymbolBinding::Weak);
}

#[test]
fn returns_twice_and_noreturn_do_not_combine() {
    let mut effects = FunctionEffectsTable::new();
    assert!(!effects.check_returns_twice("f", None, None, None, Compiler::Gnu).unwrap());
    assert!(effects.check_returns_twice("f", Some(3), None, None, Compiler::Gnu).unwrap());
    assert!(effects.check_returns_twice("f", None, None, None, Compiler::Gnu).unwrap());
    let error = effects.check_returns_twice("f", None, Some(10), None, Compiler::Gnu).unwrap_err();
    assert_eq!(error.offset, 10);
    assert_eq!(error.message, "combining returns_twice and noreturn is unsupported");
    assert!(effects.check_returns_twice("g", Some(5), None, Some((true, false)), Compiler::Clang).is_err());
    assert!(effects.check_returns_twice("g", Some(5), None, Some((true, false)), Compiler::Gnu).unwrap());
    assert!(effects.check_returns_twice("h", Some(5), None, Some((true, true)), Compiler::Clang).unwrap());
}

#[test]
fn linked_alignments_and_flexible_storage_follow_scopes() {
    let mut scopes = LexicalScopes::new();
    let file = DeclarationAlignment::new(Some(4), None).unwrap();
    assert_eq!(scopes.visible_linked_alignment("x", Some(file)), Some(file));
    scopes.enter(true).unwrap();
    scopes.bind_local("x", false, false, 0).unwrap();
    // A local without linkage does not hide the file declaration's alignment.
    assert_eq!(scopes.visible_linked_alignment("x", Some(file)), Some(file));
    scopes.mark_linked("x");
    assert!(scopes.visible_linked_alignment("x", Some(file)).unwrap().is_empty());
    let local = DeclarationAlignment::new(Some(16), None).unwrap();
    scopes.retain_local_alignment("x", local);
    assert_eq!(scopes.visible_linked_alignment("x", Some(file)), Some(local));
    scopes.retain_local_alignment("x", DeclarationAlignment::empty());
    assert_eq!(scopes.visible_linked_alignment("x", Some(file)), Some(local));

    assert_eq!(scopes.object_allocation_size("buffer", Some(96)), Some(12));
    scopes.bind_local("buffer", false, false, 0).unwrap();
    assert_eq!(scopes.object_allocation_size("buffer", Some(96)), None);
    scopes.retain_flexible_storage("buffer", 160);
    assert_eq!(scopes.object_allocation_size("buffer", Some(96)), Some(20));
    scopes.leave();
    assert_eq!(scopes.object_allocation_size("buffer", None), None);
}

#[test]
fn capture_limits_are_checked_before_copying_aliases_or_frames() {
    let source = SourceSpan { start: 17, end: 22 };
    for (references, bytes, diagnostic) in [
        (MAX_REFERENCES, 0, "reference limit"),
        (0, MAX_BYTES, "storage limit"),
    ] {
        let mut builder = DependencyCapture::with_budget(CaptureBudget { references, bytes });
        builder.begin(source, false).unwrap();
        let error = builder.alias("Array").unwrap_err();
        assert!(error.message.contains(diagnostic));
        assert_eq!(error.offset, 17);
        assert!(builder.direct_aliases().unwrap().is_empty());
        assert!(builder.parameter_aliases().unwrap().is_empty());
    }
    let mut builder =
        DependencyCapture::with_budget(CaptureBudget { references: MAX_REFERENCES - 1, bytes: 0 });
    builder.begin(source, false).unwrap();
    builder.alias("Array").unwrap();
    assert_eq!(builder.budget().references, MAX_REFERENCES);
    assert!(builder.begin(source, true).is_err());
    assert_eq!(builder.depth(), 1);
    // Duplicate names do not copy or consume more of the capture budget.
    builder.alias("Array").unwrap();
    assert_eq!(builder.budget().references, MAX_REFERENCES);
    let mut builder = DependencyCapture::new();
    for _ in 0..128 {
        builder.begin(source, false).unwrap();
    }
    assert!(builder.begin(source, false).unwrap_err().message.contains("nesting limit"));
    assert_eq!(builder.depth(), 128);
}

#[test]
fn capture_records_parameter_aliases_once_and_discard_restores_the_cursor() {
    let outer = SourceSpan { start: 0, end: 30 };
    let parameter = SourceSpan { start: 10, end: 14 };
    let mut capture = DependencyCapture::new();
    capture.begin(outer, false).unwrap();
    capture.alias("Size").unwrap();
    let previous = capture.parameter_cursor(parameter);
    capture.alias("Count").unwrap();
    capture.alias("Count").unwrap();
    capture.restore_cursor(previous);
    assert_eq!(capture.direct_aliases().unwrap(), &vec!["Size".to_string()]);
    let parameters = capture.parameter_aliases().unwrap();
    assert_eq!(parameters.len(), 1);
    assert_eq!(parameters[0].names, vec!["Count".to_string()]);
    assert_eq!(capture.budget(), CaptureBudget { references: 2, bytes: 9 });
    let was = capture.suspend();
    assert!(!was);
    capture.alias("Hidden").unwrap();
    capture.restore_suspension(was);
    assert_eq!(capture.direct_aliases().unwrap().len(), 1);
    capture.begin(SourceSpan { start: 31, end: 40 }, true).unwrap();
    assert_eq!(capture.budget(), CaptureBudget { references: 4, bytes: 18 });
    capture.discard();
    capture.discard();
    assert!(!capture.active());
}
