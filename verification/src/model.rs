//! The data model: arguments, methods, free functions, class records, the
//! aggregate model that traversal fills, and the input shape handed to the
//! traversal engine.
use vstd::prelude::*;

verus! {

/// The views of a sequence of parsed arguments.
pub open spec fn arg_views(s: Seq<Arg>) -> Seq<SpecArg> {
    s.map_values(|a: Arg| a@)
}

/// The views of a sequence of parsed methods.
pub open spec fn method_views(s: Seq<Method>) -> Seq<SpecMethod> {
    s.map_values(|m: Method| m@)
}

/// The views of a sequence of parsed free functions.
pub open spec fn function_views(s: Seq<Function>) -> Seq<SpecFunction> {
    s.map_values(|f: Function| f@)
}

/// The views of a sequence of class records.
pub open spec fn class_views(s: Seq<ClassDef>) -> Seq<SpecClassDef> {
    s.map_values(|c: ClassDef| c@)
}

/// The views of a sequence of character vectors.
pub open spec fn line_views(s: Seq<Vec<char>>) -> Seq<Seq<char>> {
    s.map_values(|l: Vec<char>| l@)
}

/// The views of a sequence of header files.
pub open spec fn file_views(s: Seq<HeaderFile>) -> Seq<SpecFile> {
    s.map_values(|f: HeaderFile| f@)
}

/// The views of a sequence of unresolved-method reports.
pub open spec fn unresolved_views(s: Seq<Unresolved>) -> Seq<SpecUnresolved> {
    s.map_values(|u: Unresolved| u@)
}

/// Mathematical view of one parsed argument.
///
/// A segment that splits at whitespace becomes `Named`; a segment the parser
/// does not fully understand is kept whole as `Unparsed`, so that a consumer
/// can detect it without comparing against a sentinel string.
#[verifier::ext_equal]
pub enum SpecArg {
    Named { name: Seq<char>, ctype: Seq<char> },
    Unparsed { raw: Seq<char> },
}

/// One parsed argument of a declaration.
#[derive(Debug, PartialEq, Eq)]
pub enum Arg {
    Named { name: Vec<char>, ctype: Vec<char> },
    Unparsed { raw: Vec<char> },
}

impl View for Arg {
    type V = SpecArg;

    open spec fn view(&self) -> SpecArg {
        match self {
            Arg::Named { name, ctype } => SpecArg::Named { name: name@, ctype: ctype@ },
            Arg::Unparsed { raw } => SpecArg::Unparsed { raw: raw@ },
        }
    }
}

/// Mathematical view of a parsed class method.
#[verifier::ext_equal]
pub struct SpecMethod {
    pub cfn: Seq<char>,
    pub ret: Seq<char>,
    pub name: Seq<char>,
    pub class: Seq<char>,
    pub args: Seq<SpecArg>,
}

/// A parsed class method: the C symbol, return type, the method name and
/// owning class name inferred from the symbol, and the argument list.
#[derive(Debug, PartialEq, Eq)]
pub struct Method {
    pub cfn: Vec<char>,
    pub ret: Vec<char>,
    pub name: Vec<char>,
    pub class: Vec<char>,
    pub args: Vec<Arg>,
}

impl View for Method {
    type V = SpecMethod;

    open spec fn view(&self) -> SpecMethod {
        SpecMethod {
            cfn: self.cfn@,
            ret: self.ret@,
            name: self.name@,
            class: self.class@,
            args: arg_views(self.args@),
        }
    }
}

/// Mathematical view of a parsed free function.
#[verifier::ext_equal]
pub struct SpecFunction {
    pub cfn: Seq<char>,
    pub ret: Seq<char>,
    pub args: Seq<SpecArg>,
}

/// A parsed free function: the C symbol, return type and argument list.
#[derive(Debug, PartialEq, Eq)]
pub struct Function {
    pub cfn: Vec<char>,
    pub ret: Vec<char>,
    pub args: Vec<Arg>,
}

impl View for Function {
    type V = SpecFunction;

    open spec fn view(&self) -> SpecFunction {
        SpecFunction { cfn: self.cfn@, ret: self.ret@, args: arg_views(self.args@) }
    }
}

/// Mathematical view of a class record.
#[verifier::ext_equal]
pub struct SpecClassDef {
    pub name: Seq<char>,
    pub parent: Option<Seq<char>>,
    pub methods: Seq<SpecMethod>,
}

/// A class record: its name, the parent name when the declaring line gave
/// one, and the methods attached by the resolution pass.
#[derive(Debug, PartialEq, Eq)]
pub struct ClassDef {
    pub name: Vec<char>,
    pub parent: Option<Vec<char>>,
    pub methods: Vec<Method>,
}

impl View for ClassDef {
    type V = SpecClassDef;

    open spec fn view(&self) -> SpecClassDef {
        SpecClassDef {
            name: self.name@,
            parent: match self.parent {
                Some(p) => Some(p@),
                None => None,
            },
            methods: method_views(self.methods@),
        }
    }
}

/// Mathematical view of the aggregate model.
#[verifier::ext_equal]
pub struct SpecModel {
    pub classes: Seq<SpecClassDef>,
    pub methods: Seq<SpecMethod>,
    pub functions: Seq<SpecFunction>,
}

/// The aggregate model: classes, methods and free functions, in the order
/// their declaring lines were encountered.
#[derive(Debug)]
pub struct Model {
    pub classes: Vec<ClassDef>,
    pub methods: Vec<Method>,
    pub functions: Vec<Function>,
}

impl View for Model {
    type V = SpecModel;

    open spec fn view(&self) -> SpecModel {
        SpecModel {
            classes: class_views(self.classes@),
            methods: method_views(self.methods@),
            functions: function_views(self.functions@),
        }
    }
}

impl Model {
    /// A model with nothing in it yet.
    pub fn empty() -> (r: Model)
        ensures
            r@.classes.len() == 0,
            r@.methods.len() == 0,
            r@.functions.len() == 0,
    {
        Model { classes: Vec::new(), methods: Vec::new(), functions: Vec::new() }
    }
}

/// The state a traversal threads along: the aggregate model, and the
/// declaration lines found malformed.
#[verifier::ext_equal]
pub struct SpecState {
    pub model: SpecModel,
    pub malformed: Seq<Seq<char>>,
}

/// Mathematical view of one header file handed to the traversal engine.
#[verifier::ext_equal]
pub struct SpecFile {
    pub name: Seq<char>,
    pub lines: Seq<Seq<char>>,
}

/// One header file: its name within the base directory, and its lines.
#[derive(Debug, PartialEq, Eq)]
pub struct HeaderFile {
    pub name: Vec<char>,
    pub lines: Vec<Vec<char>>,
}

impl View for HeaderFile {
    type V = SpecFile;

    open spec fn view(&self) -> SpecFile {
        SpecFile { name: self.name@, lines: line_views(self.lines@) }
    }
}

/// Mathematical view of one unresolved-method report.
#[verifier::ext_equal]
pub struct SpecUnresolved {
    pub cfn: Seq<char>,
    pub class: Seq<char>,
}

/// A diagnostic for a method whose owning class was not found: the method's
/// C symbol and the class name that the lookup missed.
#[derive(Debug, PartialEq, Eq)]
pub struct Unresolved {
    pub cfn: Vec<char>,
    pub class: Vec<char>,
}

impl View for Unresolved {
    type V = SpecUnresolved;

    open spec fn view(&self) -> SpecUnresolved {
        SpecUnresolved { cfn: self.cfn@, class: self.class@ }
    }
}

} // verus!
