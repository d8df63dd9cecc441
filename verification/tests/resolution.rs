use hlgen::model::{ClassDef, HeaderFile, Method, Model};
use hlgen::resolve::{resolve, start};
use hlgen::traverse::RunError;

fn cs(s: &str) -> Vec<char> {
    s.chars().collect()
}

fn file(name: &str, lines: &[&str]) -> HeaderFile {
    HeaderFile { name: cs(name), lines: lines.iter().map(|l| cs(l)).collect() }
}

fn class(name: &str) -> ClassDef {
    ClassDef { name: cs(name), parent: None, methods: Vec::new() }
}

fn method(cfn: &str, class: &str, name: &str) -> Method {
    Method { cfn: cs(cfn), ret: cs("void"), name: cs(name), class: cs(class), args: Vec::new() }
}

#[test]
fn methods_attach_to_their_class_in_order() {
    let files = vec![file(
        "root.h",
        &[
            "TClassDef(wxFrame)",
            "void wxFrame_Create(int x);",
            "int wxFrame_Show(TSelf(wxFrame) self);",
        ],
    )];
    let out = start(&files, &cs("root.h")).unwrap();
    assert_eq!(out.model.classes.len(), 1);
    let methods = &out.model.classes[0].methods;
    assert_eq!(methods.len(), 2);
    assert_eq!(methods[0].name, cs("Create"));
    assert_eq!(methods[1].name, cs("Show"));
    assert!(out.unresolved.is_empty());
    assert!(out.malformed.is_empty());
    // The flat method list is left as traversal built it.
    assert_eq!(out.model.methods.len(), 2);
}

#[test]
fn unknown_class_is_reported_unresolved() {
    let files = vec![file("root.h", &["TClassDef(wxFrame)", "void wxWindow_Create(int x);"])];
    let out = start(&files, &cs("root.h")).unwrap();
    assert!(out.model.classes[0].methods.is_empty());
    assert_eq!(out.unresolved.len(), 1);
    assert_eq!(out.unresolved[0].cfn, cs("wxWindow_Create"));
    assert_eq!(out.unresolved[0].class, cs("wxWindow"));
}

#[test]
fn symbol_without_underscore_is_reported_not_discarded() {
    // The symbol has no underscore separator, so the whole symbol stands as
    // the attempted class name; no class matches, and the method is
    // reported, not silently dropped.
    let files = vec![
        file("root.h", &["TClassDef(wxFrame)", "void Raise(TSelf(wxFrame) self);"]),
    ];
    let out = start(&files, &cs("root.h")).unwrap();
    assert_eq!(out.model.methods.len(), 1);
    assert_eq!(out.unresolved.len(), 1);
    assert_eq!(out.unresolved[0].cfn, cs("Raise"));
    assert_eq!(out.unresolved[0].class, cs("Raise"));
}

#[test]
fn duplicate_class_names_resolve_to_last_added() {
    let model = Model {
        classes: vec![class("A"), class("A")],
        methods: vec![method("A_m", "A", "m")],
        functions: Vec::new(),
    };
    let (classes, unresolved) = resolve(&model);
    assert!(classes[0].methods.is_empty());
    assert_eq!(classes[1].methods.len(), 1);
    assert!(unresolved.is_empty());
}

#[test]
fn resolution_is_idempotent_on_a_run() {
    let files = vec![file(
        "root.h",
        &["TClassDef(wxFrame)", "void wxFrame_Create(int x);", "void wxLost_Ctor(int x);"],
    )];
    let out = start(&files, &cs("root.h")).unwrap();
    // Run the pass again over its own output: same assignments, same
    // reports, nothing duplicated.
    let (classes2, unresolved2) = resolve(&out.model);
    assert_eq!(classes2, out.model.classes);
    assert_eq!(unresolved2, out.unresolved);
}

#[test]
fn start_fails_only_on_missing_root() {
    let files = vec![file("sub.h", &["TClassDef(Sub)"])];
    assert_eq!(start(&files, &cs("root.h")).unwrap_err(), RunError::RootNotFound);
    assert!(start(&files, &cs("sub.h")).is_ok());
}
