//! The line classifier: one raw text line goes to exactly one category.
//! Classification is prefix/suffix driven and ordered by priority; the first
//! matching rule wins.
use vstd::prelude::*;

use crate::text::{
    contains_sub, ends_with, spec_contains, spec_ends_with, spec_starts_with, starts_with,
};

verus! {

/// The category a line falls under.
#[derive(Debug, PartialEq, Eq, Clone, Copy)]
pub enum LineType {
    /// A directive naming another header file in double quotes.
    Incl,
    /// A simple class declaration.
    ClassDecl,
    /// A class declaration that names a parent class.
    ClassDeclEx,
    /// A declaration carrying a method marker.
    MethodDecl,
    /// A declaration matched only by the closing `);` heuristic.
    FunctionDecl,
    /// A preprocessor or comment line, never parsed further.
    Comment,
    /// Anything else, silently ignored.
    Unknown,
}

/// The directive token that pulls in another header file.
pub open spec fn incl_marker() -> Seq<char> {
    seq!['#', 'i', 'n', 'c', 'l', 'u', 'd', 'e', ' ']
}

/// The simple class-declaration marker.
pub open spec fn classdef_marker() -> Seq<char> {
    seq!['T', 'C', 'l', 'a', 's', 's', 'D', 'e', 'f', '(']
}

/// The extended (inheriting) class-declaration marker.
pub open spec fn classdefex_marker() -> Seq<char> {
    seq!['T', 'C', 'l', 'a', 's', 's', 'D', 'e', 'f', 'E', 'x', 't', 'e', 'n', 'd', '(']
}

/// The self-reference marker that flags a method declaration.
pub open spec fn tself_marker() -> Seq<char> {
    seq!['T', 'S', 'e', 'l', 'f', '(']
}

/// The creation-function marker that flags a method declaration.
pub open spec fn create_marker() -> Seq<char> {
    seq!['_', 'C', 'r', 'e', 'a', 't', 'e', '(']
}

/// The constructor marker that flags a method declaration.
pub open spec fn ctor_marker() -> Seq<char> {
    seq!['_', 'C', 't', 'o', 'r', '(']
}

/// The statement terminator that flags a one-line declaration.
pub open spec fn term_marker() -> Seq<char> {
    seq![')', ';']
}

/// The category of a line, by the ordered rules: the directive token first,
/// then preprocessor and comment markers, the two class-declaration markers,
/// the method markers anywhere in the line, and last the closing `);`
/// heuristic.
pub open spec fn spec_line_type(l: Seq<char>) -> LineType {
    if spec_starts_with(l, incl_marker()) {
        LineType::Incl
    } else if l.len() >= 1 && (l[0] == '#' || l[0] == '/') {
        LineType::Comment
    } else if spec_starts_with(l, classdef_marker()) {
        LineType::ClassDecl
    } else if spec_starts_with(l, classdefex_marker()) {
        LineType::ClassDeclEx
    } else if spec_contains(l, tself_marker()) || spec_contains(l, create_marker())
        || spec_contains(l, ctor_marker()) {
        LineType::MethodDecl
    } else if spec_ends_with(l, term_marker()) {
        LineType::FunctionDecl
    } else {
        LineType::Unknown
    }
}

/// The directive token as a character vector.
pub fn incl_marker_vec() -> (r: Vec<char>)
    ensures
        r@ == incl_marker(),
{
    let mut r: Vec<char> = Vec::new();
    r.push('#');
    r.push('i');
    r.push('n');
    r.push('c');
    r.push('l');
    r.push('u');
    r.push('d');
    r.push('e');
    r.push(' ');
    proof {
        assert(r@ =~= incl_marker());
    }
    r
}

/// The simple class-declaration marker as a character vector.
pub fn classdef_marker_vec() -> (r: Vec<char>)
    ensures
        r@ == classdef_marker(),
{
    let mut r: Vec<char> = Vec::new();
    r.push('T');
    r.push('C');
    r.push('l');
    r.push('a');
    r.push('s');
    r.push('s');
    r.push('D');
    r.push('e');
    r.push('f');
    r.push('(');
    proof {
        assert(r@ =~= classdef_marker());
    }
    r
}

/// The extended class-declaration marker as a character vector.
pub fn classdefex_marker_vec() -> (r: Vec<char>)
    ensures
        r@ == classdefex_marker(),
{
    let mut r: Vec<char> = Vec::new();
    r.push('T');
    r.push('C');
    r.push('l');
    r.push('a');
    r.push('s');
    r.push('s');
    r.push('D');
    r.push('e');
    r.push('f');
    r.push('E');
    r.push('x');
    r.push('t');
    r.push('e');
    r.push('n');
    r.push('d');
    r.push('(');
    proof {
        assert(r@ =~= classdefex_marker());
    }
    r
}

/// The self-reference marker as a character vector.
pub fn tself_marker_vec() -> (r: Vec<char>)
    ensures
        r@ == tself_marker(),
{
    let mut r: Vec<char> = Vec::new();
    r.push('T');
    r.push('S');
    r.push('e');
    r.push('l');
    r.push('f');
    r.push('(');
    proof {
        assert(r@ =~= tself_marker());
    }
    r
}

/// The creation-function marker as a character vector.
pub fn create_marker_vec() -> (r: Vec<char>)
    ensures
        r@ == create_marker(),
{
    let mut r: Vec<char> = Vec::new();
    r.push('_');
    r.push('C');
    r.push('r');
    r.push('e');
    r.push('a');
    r.push('t');
    r.push('e');
    r.push('(');
    proof {
        assert(r@ =~= create_marker());
    }
    r
}

/// The constructor marker as a character vector.
pub fn ctor_marker_vec() -> (r: Vec<char>)
    ensures
        r@ == ctor_marker(),
{
    let mut r: Vec<char> = Vec::new();
    r.push('_');
    r.push('C');
    r.push('t');
    r.push('o');
    r.push('r');
    r.push('(');
    proof {
        assert(r@ =~= ctor_marker());
    }
    r
}

/// The statement terminator as a character vector.
pub fn term_marker_vec() -> (r: Vec<char>)
    ensures
        r@ == term_marker(),
{
    let mut r: Vec<char> = Vec::new();
    r.push(')');
    r.push(';');
    proof {
        assert(r@ =~= term_marker());
    }
    r
}

/// Classifies one line. The first matching rule wins; in particular a line
/// carrying a method marker is a method declaration even when it also ends
/// in `);`.
pub fn line_type(l: &Vec<char>) -> (r: LineType)
    ensures
        r == spec_line_type(l@),
{
    if starts_with(l, &incl_marker_vec()) {
        LineType::Incl
    } else if l.len() >= 1 && (l[0] == '#' || l[0] == '/') {
        LineType::Comment
    } else if starts_with(l, &classdef_marker_vec()) {
        LineType::ClassDecl
    } else if starts_with(l, &classdefex_marker_vec()) {
        LineType::ClassDeclEx
    } else if contains_sub(l, &tself_marker_vec()) || contains_sub(l, &create_marker_vec())
        || contains_sub(l, &ctor_marker_vec()) {
        LineType::MethodDecl
    } else if ends_with(l, &term_marker_vec()) {
        LineType::FunctionDecl
    } else {
        LineType::Unknown
    }
}

} // verus!
