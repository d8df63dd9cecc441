use hlgen::classify::{line_type, LineType};
use hlgen::model::Arg;
use hlgen::parse::{
    class_ex_of_line, class_of_line, function_of_line, incl_of_line, method_of_line, parse_args,
    to_arg,
};
use hlgen::text::{collapse, find_between, find_to, split_at, trim};

fn cs(s: &str) -> Vec<char> {
    s.chars().collect()
}

fn directive(file: &str) -> Vec<char> {
    let mut s = String::from("#i");
    s.push_str("nclude \"");
    s.push_str(file);
    s.push('"');
    s.chars().collect()
}

#[test]
fn find_to_takes_text_before_first_hit() {
    assert_eq!(find_to(&cs("abc,def"), ','), Some(cs("abc")));
    assert_eq!(find_to(&cs(",x"), ','), Some(cs("")));
    assert_eq!(find_to(&cs("abc"), ','), None);
}

#[test]
fn split_at_splits_around_first_hit() {
    assert_eq!(split_at(&cs("int x"), ' '), Some((cs("int"), cs("x"))));
    assert_eq!(split_at(&cs("a_b_c"), '_'), Some((cs("a"), cs("b_c"))));
    assert_eq!(split_at(&cs("abc"), '_'), None);
}

#[test]
fn find_between_takes_text_between_delimiters() {
    assert_eq!(find_between(&cs("TClassDef(Foo)"), '(', ')'), Some(cs("Foo")));
    assert_eq!(find_between(&cs("no parens"), '(', ')'), None);
    assert_eq!(find_between(&cs("(open only"), '(', ')'), None);
}

#[test]
fn directive_extraction_takes_first_quoted_text() {
    // The filename is the text strictly between the first two quotes.
    assert_eq!(incl_of_line(&directive("sub.h")), Some(cs("sub.h")));
    let mut odd = directive("a.h");
    odd.extend("\"b.h\"".chars());
    assert_eq!(incl_of_line(&odd), Some(cs("a.h")));
    assert_eq!(incl_of_line(&cs("#inc no quotes")), None);
}

#[test]
fn trim_removes_surrounding_whitespace_only() {
    assert_eq!(trim(&cs("  char* y \t")), cs("char* y"));
    assert_eq!(trim(&cs("x")), cs("x"));
    assert_eq!(trim(&cs(" \t ")), cs(""));
}

#[test]
fn collapse_joins_space_and_open_paren() {
    assert_eq!(collapse(&cs("int f (int x);")), cs("int f(int x);"));
    assert_eq!(collapse(&cs("no change(here);")), cs("no change(here);"));
}

#[test]
fn classifier_orders_rules_by_priority() {
    assert_eq!(line_type(&directive("wx.h")), LineType::Incl);
    assert_eq!(line_type(&cs("#define WXDLLEXPORT")), LineType::Comment);
    assert_eq!(line_type(&cs("/* note */")), LineType::Comment);
    assert_eq!(line_type(&cs("TClassDef(wxFrame)")), LineType::ClassDecl);
    assert_eq!(line_type(&cs("TClassDefExtend(wxFrame,wxWindow)")), LineType::ClassDeclEx);
    assert_eq!(line_type(&cs("void wxFrame_Ctor(TSelf(wxFrame) self);")), LineType::MethodDecl);
    assert_eq!(line_type(&cs("int wxMain(int argc);")), LineType::FunctionDecl);
    assert_eq!(line_type(&cs("typedef int wxBool")), LineType::Unknown);
}

#[test]
fn method_marker_beats_function_heuristic() {
    // Ends in ); and carries a method marker: the method rule wins.
    let l = cs("TFrame wxFrame_Create(int x);");
    assert_eq!(line_type(&l), LineType::MethodDecl);
}

#[test]
fn classdef_line_yields_class_without_parent() {
    let c = class_of_line(&cs("TClassDef(Foo)")).unwrap();
    assert_eq!(c.name, cs("Foo"));
    assert_eq!(c.parent, None);
    assert!(c.methods.is_empty());
    assert!(class_of_line(&cs("TClassDef(Foo")).is_none());
}

#[test]
fn classdefex_line_yields_class_with_parent() {
    let c = class_ex_of_line(&cs("TClassDefExtend(Foo,Bar)")).unwrap();
    assert_eq!(c.name, cs("Foo"));
    assert_eq!(c.parent, Some(cs("Bar")));
    assert!(c.methods.is_empty());
    let c2 = class_ex_of_line(&cs("TClassDefExtend( Foo , Bar )")).unwrap();
    assert_eq!(c2.name, cs("Foo"));
    assert_eq!(c2.parent, Some(cs("Bar")));
    assert!(class_ex_of_line(&cs("TClassDefExtend(Foo)")).is_none());
}

#[test]
fn declaration_line_parses_to_exact_record() {
    let m = method_of_line(&cs("int wxFoo_Bar(int x, char* y);")).unwrap();
    assert_eq!(m.ret, cs("int"));
    assert_eq!(m.cfn, cs("wxFoo_Bar"));
    assert_eq!(m.class, cs("wxFoo"));
    assert_eq!(m.name, cs("Bar"));
    assert_eq!(m.args.len(), 2);
    assert_eq!(m.args[0], Arg::Named { name: cs("int"), ctype: cs("x") });
    assert_eq!(m.args[1], Arg::Named { name: cs("char*"), ctype: cs("y") });

    let f = function_of_line(&cs("int wxFoo_Bar(int x, char* y);")).unwrap();
    assert_eq!(f.ret, cs("int"));
    assert_eq!(f.cfn, cs("wxFoo_Bar"));
    assert_eq!(f.args.len(), 2);
}

#[test]
fn declaration_with_space_before_paren_is_normalised() {
    let f = function_of_line(&cs("int wxMain (int argc);")).unwrap();
    assert_eq!(f.cfn, cs("wxMain"));
    assert_eq!(f.ret, cs("int"));
    assert_eq!(f.args.len(), 1);
}

#[test]
fn declaration_without_delimiters_is_malformed() {
    // No space at all: the tokenizer cannot split off a return type.
    assert!(method_of_line(&cs("wxFoo_Create(;")).is_none());
    // No open paren after the symbol.
    assert!(function_of_line(&cs("int x);")).is_none());
}

#[test]
fn empty_argument_list_yields_zero_arguments() {
    assert_eq!(parse_args(&cs("")).len(), 0);
}

#[test]
fn declaration_without_parameters_has_no_arguments() {
    let f = function_of_line(&cs("int wxNop();")).unwrap();
    assert_eq!(f.cfn, cs("wxNop"));
    assert!(f.args.is_empty());
}

#[test]
fn argument_segments_split_on_commas() {
    let args = parse_args(&cs("int x, char* y"));
    assert_eq!(args.len(), 2);
    assert_eq!(args[0], Arg::Named { name: cs("int"), ctype: cs("x") });
    assert_eq!(args[1], Arg::Named { name: cs("char*"), ctype: cs("y") });
}

#[test]
fn argument_without_space_is_kept_unparsed() {
    assert_eq!(to_arg(&cs(" char* y ")), Arg::Named { name: cs("char*"), ctype: cs("y") });
    assert_eq!(to_arg(&cs("void")), Arg::Unparsed { raw: cs("void") });
    // The raw segment is kept whole, untrimmed.
    assert_eq!(to_arg(&cs(" void ")), Arg::Unparsed { raw: cs(" void ") });
    let args = parse_args(&cs("int x,void"));
    assert_eq!(args[1], Arg::Unparsed { raw: cs("void") });
}
