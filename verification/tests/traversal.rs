use hlgen::model::HeaderFile;
use hlgen::traverse::{traverse, RunError};

fn cs(s: &str) -> Vec<char> {
    s.chars().collect()
}

fn file(name: &str, lines: &[&str]) -> HeaderFile {
    HeaderFile { name: cs(name), lines: lines.iter().map(|l| cs(l)).collect() }
}

fn directive(f: &str) -> String {
    let mut s = String::from("#i");
    s.push_str("nclude \"");
    s.push_str(f);
    s.push('"');
    s
}

#[test]
fn traversal_is_depth_first() {
    // root.h pulls sub.h in before its own class declaration: sub.h's class
    // must land in the model first.
    let files = vec![
        file("root.h", &[&directive("sub.h"), "TClassDef(Root)"]),
        file("sub.h", &["TClassDef(Sub)"]),
    ];
    let (model, malformed) = traverse(&files, &cs("root.h")).unwrap();
    let names: Vec<Vec<char>> = model.classes.iter().map(|c| c.name.clone()).collect();
    assert_eq!(names, vec![cs("Sub"), cs("Root")]);
    assert!(malformed.is_empty());
}

#[test]
fn missing_branch_file_is_skipped_silently() {
    // sub.h is absent: root.h still completes with its own records.
    let files = vec![file("root.h", &[&directive("sub.h"), "TClassDef(Root)"])];
    let (model, malformed) = traverse(&files, &cs("root.h")).unwrap();
    assert_eq!(model.classes.len(), 1);
    assert_eq!(model.classes[0].name, cs("Root"));
    assert!(malformed.is_empty());
}

#[test]
fn missing_root_is_fatal() {
    let files = vec![file("sub.h", &["TClassDef(Sub)"])];
    assert_eq!(traverse(&files, &cs("root.h")).unwrap_err(), RunError::RootNotFound);
}

#[test]
fn directive_cycle_terminates() {
    // a.h and b.h pull each other in; each file is processed once per path,
    // so the run ends with one class from each.
    let files = vec![
        file("a.h", &[&directive("b.h"), "TClassDef(A)"]),
        file("b.h", &[&directive("a.h"), "TClassDef(B)"]),
    ];
    let (model, _) = traverse(&files, &cs("a.h")).unwrap();
    let names: Vec<Vec<char>> = model.classes.iter().map(|c| c.name.clone()).collect();
    assert_eq!(names, vec![cs("B"), cs("A")]);
}

#[test]
fn records_keep_declaration_order() {
    let files = vec![file(
        "root.h",
        &[
            "TClassDef(wxFrame)",
            "void wxFrame_Create(int x);",
            "int wxMain(int argc);",
            "TClassDefExtend(wxDialog,wxFrame)",
            "// a comment line",
            "#define WXDLL",
            "stray text",
        ],
    )];
    let (model, malformed) = traverse(&files, &cs("root.h")).unwrap();
    assert_eq!(model.classes.len(), 2);
    assert_eq!(model.classes[0].name, cs("wxFrame"));
    assert_eq!(model.classes[1].name, cs("wxDialog"));
    assert_eq!(model.classes[1].parent, Some(cs("wxFrame")));
    assert_eq!(model.methods.len(), 1);
    assert_eq!(model.methods[0].cfn, cs("wxFrame_Create"));
    assert_eq!(model.functions.len(), 1);
    assert_eq!(model.functions[0].cfn, cs("wxMain"));
    assert!(malformed.is_empty());
}

#[test]
fn malformed_declaration_is_recorded_not_dropped() {
    // Carries a method marker but has no space to split a return type off:
    // the line lands in the malformed list, not silently in the void.
    let files = vec![file("root.h", &["wxFoo_Create(;"])];
    let (model, malformed) = traverse(&files, &cs("root.h")).unwrap();
    assert!(model.methods.is_empty());
    assert_eq!(malformed, vec![cs("wxFoo_Create(;")]);
}

#[test]
fn empty_root_file_gives_empty_model() {
    let files = vec![file("root.h", &[])];
    let (model, malformed) = traverse(&files, &cs("root.h")).unwrap();
    assert!(model.classes.is_empty());
    assert!(model.methods.is_empty());
    assert!(model.functions.is_empty());
    assert!(malformed.is_empty());
}

#[test]
fn class_declaration_missing_delimiter_is_skipped() {
    let files = vec![file("root.h", &["TClassDef(Foo", "TClassDef(Bar)"])];
    let (model, malformed) = traverse(&files, &cs("root.h")).unwrap();
    assert_eq!(model.classes.len(), 1);
    assert_eq!(model.classes[0].name, cs("Bar"));
    assert!(malformed.is_empty());
}
