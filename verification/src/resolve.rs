//! The class resolution pass: assigns each parsed method to its owning
//! class record by name lookup, and reports the methods whose owning class
//! is not found. Lookup is last-writer-wins: of several class records of
//! one name, the one most recently added is used.
use vstd::prelude::*;

use crate::model::{
    arg_views, class_views, file_views, line_views, method_views, unresolved_views, Arg, ClassDef,
    HeaderFile, Method, Model, SpecClassDef, SpecFile, SpecMethod, SpecState, SpecUnresolved,
    Unresolved,
};
use crate::text::{chars_eq, copy_chars};
use crate::traverse::{empty_state, spec_file_find, spec_run, traverse, RunError};

verus! {

/// Position of the class record of the given name that was added last,
/// if any.
pub open spec fn spec_lookup(classes: Seq<SpecClassDef>, name: Seq<char>) -> Option<int>
    decreases classes.len(),
{
    if classes.len() == 0 {
        None
    } else if classes.last().name == name {
        Some(classes.len() - 1)
    } else {
        spec_lookup(classes.drop_last(), name)
    }
}

/// The methods assigned to the class record at position `j`: exactly those
/// whose owning-class lookup lands on `j`, in declaration order.
pub open spec fn methods_for(
    classes: Seq<SpecClassDef>,
    methods: Seq<SpecMethod>,
    j: int,
) -> Seq<SpecMethod>
    decreases methods.len(),
{
    if methods.len() == 0 {
        Seq::empty()
    } else {
        let rest = methods_for(classes, methods.drop_last(), j);
        if spec_lookup(classes, methods.last().class) == Some(j) {
            rest.push(methods.last())
        } else {
            rest
        }
    }
}

/// The class records after resolution: each keeps its name and parent and
/// carries exactly the methods assigned to it.
pub open spec fn spec_resolve_classes(
    classes: Seq<SpecClassDef>,
    methods: Seq<SpecMethod>,
) -> Seq<SpecClassDef> {
    classes.map(
        |j: int, c: SpecClassDef|
            SpecClassDef { name: c.name, parent: c.parent, methods: methods_for(classes, methods, j) },
    )
}

/// The reports of the methods whose owning class is not found, in
/// declaration order.
pub open spec fn spec_unresolved(
    classes: Seq<SpecClassDef>,
    methods: Seq<SpecMethod>,
) -> Seq<SpecUnresolved>
    decreases methods.len(),
{
    if methods.len() == 0 {
        Seq::empty()
    } else {
        let rest = spec_unresolved(classes, methods.drop_last());
        if spec_lookup(classes, methods.last().class) is None {
            rest.push(
                SpecUnresolved { cfn: methods.last().cfn, class: methods.last().class },
            )
        } else {
            rest
        }
    }
}

/// Looks the named class up, last added first.
pub fn lookup_class(classes: &Vec<ClassDef>, name: &Vec<char>) -> (r: Option<usize>)
    ensures
        match r {
            Some(j) => j < classes@.len() && spec_lookup(class_views(classes@), name@) == Some(
                j as int,
            ),
            None => spec_lookup(class_views(classes@), name@) is None,
        },
{
    let ghost cv = class_views(classes@);
    proof {
        assert(cv.take(classes@.len() as int) =~= cv);
    }
    let mut j: usize = classes.len();
    while j > 0
        invariant
            j <= classes.len(),
            spec_lookup(cv, name@) == spec_lookup(cv.take(j as int), name@),
        decreases j,
    {
        proof {
            assert(cv[j - 1] == classes@[j - 1]@);
            assert(cv.take(j as int).last() == cv[j - 1]);
            assert(cv.take(j as int).drop_last() =~= cv.take(j - 1));
        }
        if chars_eq(&classes[j - 1].name, name) {
            return Some(j - 1);
        }
        j = j - 1;
    }
    proof {
        assert(cv.take(0).len() == 0);
    }
    None
}

/// A fresh copy of one argument.
fn copy_arg(a: &Arg) -> (r: Arg)
    ensures
        r@ == a@,
{
    match a {
        Arg::Named { name, ctype } => Arg::Named {
            name: copy_chars(name),
            ctype: copy_chars(ctype),
        },
        Arg::Unparsed { raw } => Arg::Unparsed { raw: copy_chars(raw) },
    }
}

/// A fresh copy of one method record.
fn copy_method(m: &Method) -> (r: Method)
    ensures
        r@ == m@,
{
    let mut args: Vec<Arg> = Vec::new();
    let mut i: usize = 0;
    while i < m.args.len()
        invariant
            i <= m.args.len(),
            arg_views(args@) =~= arg_views(m.args@).take(i as int),
        decreases m.args.len() - i,
    {
        let a = copy_arg(&m.args[i]);
        args.push(a);
        proof {
            assert(arg_views(args@) =~= arg_views(m.args@).take(i + 1));
        }
        i = i + 1;
    }
    proof {
        assert(arg_views(m.args@).take(m.args@.len() as int) =~= arg_views(m.args@));
    }
    let r = Method {
        cfn: copy_chars(&m.cfn),
        ret: copy_chars(&m.ret),
        name: copy_chars(&m.name),
        class: copy_chars(&m.class),
        args,
    };
    proof {
        assert(r@ =~= m@);
    }
    r
}

/// Resolves the model's methods to its class records: returns the class
/// records with their method lists filled, and one report for each method
/// whose owning class is not found. The model itself is left as traversal
/// built it.
pub fn resolve(model: &Model) -> (r: (Vec<ClassDef>, Vec<Unresolved>))
    ensures
        class_views(r.0@) == spec_resolve_classes(
            class_views(model.classes@),
            method_views(model.methods@),
        ),
        unresolved_views(r.1@) == spec_unresolved(
            class_views(model.classes@),
            method_views(model.methods@),
        ),
{
    let ghost cv = class_views(model.classes@);
    let ghost mv = method_views(model.methods@);
    let mut out: Vec<ClassDef> = Vec::new();
    let mut j: usize = 0;
    while j < model.classes.len()
        invariant
            j <= model.classes.len(),
            class_views(out@) =~= spec_resolve_classes(cv, mv).take(j as int),
        decreases model.classes.len() - j,
    {
        let mut ms: Vec<Method> = Vec::new();
        let mut i: usize = 0;
        while i < model.methods.len()
            invariant
                i <= model.methods.len(),
                j < model.classes.len(),
                method_views(ms@) =~= methods_for(cv, mv.take(i as int), j as int),
            decreases model.methods.len() - i,
        {
            proof {
                assert(mv[i as int] == model.methods@[i as int]@);
                assert(mv.take(i + 1).drop_last() =~= mv.take(i as int));
                assert(mv.take(i + 1).last() == mv[i as int]);
            }
            let m = &model.methods[i];
            let hit = match lookup_class(&model.classes, &m.class) {
                Some(jj) => jj == j,
                None => false,
            };
            if hit {
                let c = copy_method(m);
                ms.push(c);
                proof {
                    assert(method_views(ms@) =~= methods_for(cv, mv.take(i + 1), j as int));
                }
            } else {
                proof {
                    assert(method_views(ms@) =~= methods_for(cv, mv.take(i + 1), j as int));
                }
            }
            i = i + 1;
        }
        proof {
            assert(mv.take(mv.len() as int) =~= mv);
        }
        let c = &model.classes[j];
        let parent: Option<Vec<char>> = match &c.parent {
            Some(p) => Some(copy_chars(p)),
            None => None,
        };
        let filled = ClassDef { name: copy_chars(&c.name), parent, methods: ms };
        proof {
            assert(cv[j as int] == model.classes@[j as int]@);
            assert(filled@ == spec_resolve_classes(cv, mv)[j as int]);
        }
        out.push(filled);
        proof {
            assert(class_views(out@) =~= spec_resolve_classes(cv, mv).take(j + 1));
        }
        j = j + 1;
    }
    proof {
        assert(spec_resolve_classes(cv, mv).take(cv.len() as int) =~= spec_resolve_classes(
            cv,
            mv,
        ));
    }
    let mut un: Vec<Unresolved> = Vec::new();
    let mut i: usize = 0;
    while i < model.methods.len()
        invariant
            i <= model.methods.len(),
            unresolved_views(un@) =~= spec_unresolved(cv, mv.take(i as int)),
        decreases model.methods.len() - i,
    {
        proof {
            assert(mv[i as int] == model.methods@[i as int]@);
            assert(mv.take(i + 1).drop_last() =~= mv.take(i as int));
            assert(mv.take(i + 1).last() == mv[i as int]);
        }
        let m = &model.methods[i];
        match lookup_class(&model.classes, &m.class) {
            None => {
                let u = Unresolved { cfn: copy_chars(&m.cfn), class: copy_chars(&m.class) };
                un.push(u);
                proof {
                    assert(unresolved_views(un@) =~= spec_unresolved(cv, mv.take(i + 1)));
                }
            },
            Some(_) => {
                proof {
                    assert(unresolved_views(un@) =~= spec_unresolved(cv, mv.take(i + 1)));
                }
            },
        }
        i = i + 1;
    }
    proof {
        assert(mv.take(mv.len() as int) =~= mv);
    }
    (out, un)
}

/// A lookup sees only the class names, so two class sequences of equal
/// names look the same to it.
proof fn lemma_lookup_names(c1: Seq<SpecClassDef>, c2: Seq<SpecClassDef>, name: Seq<char>)
    requires
        c1.len() == c2.len(),
        forall|j: int| 0 <= j < c1.len() ==> c1[j].name == c2[j].name,
    ensures
        spec_lookup(c1, name) == spec_lookup(c2, name),
    decreases c1.len(),
{
    if c1.len() > 0 {
        lemma_lookup_names(c1.drop_last(), c2.drop_last(), name);
    }
}

/// Method assignment sees only the class names.
proof fn lemma_methods_for_names(
    c1: Seq<SpecClassDef>,
    c2: Seq<SpecClassDef>,
    methods: Seq<SpecMethod>,
    j: int,
)
    requires
        c1.len() == c2.len(),
        forall|k: int| 0 <= k < c1.len() ==> c1[k].name == c2[k].name,
    ensures
        methods_for(c1, methods, j) == methods_for(c2, methods, j),
    decreases methods.len(),
{
    if methods.len() > 0 {
        lemma_methods_for_names(c1, c2, methods.drop_last(), j);
        lemma_lookup_names(c1, c2, methods.last().class);
    }
}

/// The unresolved reports see only the class names.
proof fn lemma_unresolved_names(
    c1: Seq<SpecClassDef>,
    c2: Seq<SpecClassDef>,
    methods: Seq<SpecMethod>,
)
    requires
        c1.len() == c2.len(),
        forall|k: int| 0 <= k < c1.len() ==> c1[k].name == c2[k].name,
    ensures
        spec_unresolved(c1, methods) == spec_unresolved(c2, methods),
    decreases methods.len(),
{
    if methods.len() > 0 {
        lemma_unresolved_names(c1, c2, methods.drop_last());
        lemma_lookup_names(c1, c2, methods.last().class);
    }
}

/// Class resolution is idempotent: running the pass again on its own output
/// assigns every method to the same class and reports the same methods
/// unresolved, with no duplication.
pub proof fn lemma_resolve_idempotent(classes: Seq<SpecClassDef>, methods: Seq<SpecMethod>)
    ensures
        spec_resolve_classes(spec_resolve_classes(classes, methods), methods)
            == spec_resolve_classes(classes, methods),
        spec_unresolved(spec_resolve_classes(classes, methods), methods) == spec_unresolved(
            classes,
            methods,
        ),
{
    let r1 = spec_resolve_classes(classes, methods);
    let r2 = spec_resolve_classes(r1, methods);
    assert(forall|k: int| 0 <= k < classes.len() ==> r1[k].name == classes[k].name);
    assert forall|j: int| 0 <= j < r1.len() implies r2[j] == r1[j] by {
        lemma_methods_for_names(r1, classes, methods, j);
    };
    assert(r2 =~= r1);
    lemma_unresolved_names(r1, classes, methods);
}

/// Everything a completed run hands back: the model with its class records
/// resolved, the declaration lines found malformed, and the report of each
/// method whose owning class was not found.
#[derive(Debug)]
pub struct RunOutput {
    pub model: Model,
    pub malformed: Vec<Vec<char>>,
    pub unresolved: Vec<Unresolved>,
}

/// The traversal state of a whole run from the given root.
pub open spec fn spec_traversal(files: Seq<SpecFile>, root: Seq<char>) -> SpecState {
    spec_run(files, root, Set::empty(), empty_state())
}

/// Runs the whole engine: traverses the files from the root, then resolves
/// methods to classes. Fails exactly when the root file is not among the
/// given files.
pub fn start(files: &Vec<HeaderFile>, root: &Vec<char>) -> (r: Result<RunOutput, RunError>)
    ensures
        r is Ok <==> spec_file_find(file_views(files@), root@) is Some,
        r matches Ok(o) ==> {
            let st = spec_traversal(file_views(files@), root@);
            o.model@.classes == spec_resolve_classes(st.model.classes, st.model.methods)
                && o.model@.methods == st.model.methods && o.model@.functions
                == st.model.functions && line_views(o.malformed@) == st.malformed
                && unresolved_views(o.unresolved@) == spec_unresolved(
                st.model.classes,
                st.model.methods,
            )
        },
        r matches Err(e) ==> e == RunError::RootNotFound,
{
    match traverse(files, root) {
        Err(e) => Err(e),
        Ok(t) => {
            let (model, malformed) = t;
            let (classes, unresolved) = resolve(&model);
            let model2 = Model { classes, methods: model.methods, functions: model.functions };
            Ok(RunOutput { model: model2, malformed, unresolved })
        },
    }
}

} // verus!
