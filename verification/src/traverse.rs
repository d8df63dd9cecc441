//! The file traversal engine: reads the given files line by line from one
//! root file, dispatches each line through the classifier and the parsers,
//! recurses depth-first into files named by directive lines, and accumulates
//! everything into one model.
//!
//! A branch whose file is absent is skipped silently; a file already on the
//! current recursion path is skipped, so a cycle of directives cannot recurse
//! without bound; a missing root is the one fatal error. A declaration line
//! whose structure the tokenizer cannot split is recorded as malformed
//! rather than dropped without a trace.
use vstd::prelude::*;

use crate::classify::{line_type, spec_line_type, LineType};
use crate::model::{
    class_views, file_views, function_views, line_views, method_views, HeaderFile, Model,
    SpecFile, SpecModel, SpecState,
};
use crate::parse::{
    class_ex_of_line, class_of_line, function_of_line, incl_of_line, method_of_line,
    spec_apply_line, spec_class_ex_of, spec_class_of, spec_function_of, spec_incl_of,
    spec_method_of,
};
use crate::text::{chars_eq, copy_chars};

verus! {

/// The state a traversal threads along: the model and the malformed lines.
pub open spec fn st_of(m: &Model, malformed: &Vec<Vec<char>>) -> SpecState {
    SpecState { model: m@, malformed: line_views(malformed@) }
}

/// The state of a run that has seen nothing yet.
pub open spec fn empty_state() -> SpecState {
    SpecState {
        model: SpecModel { classes: Seq::empty(), methods: Seq::empty(), functions: Seq::empty() },
        malformed: Seq::empty(),
    }
}

/// The names of the given files, as a set.
pub open spec fn file_names(files: Seq<SpecFile>) -> Set<Seq<char>> {
    files.map_values(|f: SpecFile| f.name).to_set()
}

/// How many file names are not yet on the recursion path; the termination
/// measure of the traversal.
pub open spec fn unvisited(files: Seq<SpecFile>, path: Set<Seq<char>>) -> nat {
    file_names(files).difference(path).len()
}

/// The set of names on the recursion path.
pub open spec fn path_of(stack: Seq<Vec<char>>) -> Set<Seq<char>> {
    line_views(stack).to_set()
}

/// First position `>= i` of a file of the given name, if any.
pub open spec fn file_at(files: Seq<SpecFile>, name: Seq<char>, i: int) -> Option<int>
    decreases files.len() - i,
{
    if i < 0 || i >= files.len() {
        None
    } else if files[i].name == name {
        Some(i)
    } else {
        file_at(files, name, i + 1)
    }
}

/// Position of the first file of the given name, if any.
pub open spec fn spec_file_find(files: Seq<SpecFile>, name: Seq<char>) -> Option<int> {
    file_at(files, name, 0)
}

/// A found file position lies in range and carries the sought name.
pub proof fn lemma_file_at_found(files: Seq<SpecFile>, name: Seq<char>, i: int) -> (k: int)
    requires
        file_at(files, name, i) is Some,
    ensures
        file_at(files, name, i) == Some(k),
        i <= k < files.len(),
        files[k].name == name,
    decreases files.len() - i,
{
    if 0 <= i < files.len() && files[i].name == name {
        i
    } else {
        lemma_file_at_found(files, name, i + 1)
    }
}

/// A name that a file lookup finds is one of the file names.
pub proof fn lemma_found_in_names(files: Seq<SpecFile>, name: Seq<char>)
    requires
        spec_file_find(files, name) is Some,
    ensures
        file_names(files).contains(name),
{
    let k = lemma_file_at_found(files, name, 0);
    assert(files.map_values(|f: SpecFile| f.name)[k] == name);
    assert(files.map_values(|f: SpecFile| f.name).contains(name));
}

/// Pushing a name onto the recursion path inserts it into the path set.
proof fn lemma_to_set_push(s: Seq<Seq<char>>, x: Seq<char>)
    ensures
        s.push(x).to_set() =~= s.to_set().insert(x),
{
    assert forall|y: Seq<char>| s.push(x).to_set().contains(y) implies s.to_set().insert(
        x,
    ).contains(y) by {
        let j = choose|j: int| 0 <= j < s.push(x).len() && s.push(x)[j] == y;
        if j < s.len() {
            assert(s[j] == y);
            assert(s.contains(y));
        }
    };
    assert forall|y: Seq<char>| s.to_set().insert(x).contains(y) implies s.push(
        x,
    ).to_set().contains(y) by {
        if y == x {
            assert(s.push(x)[s.len() as int] == y);
        } else {
            let j = choose|j: int| 0 <= j < s.len() && s[j] == y;
            assert(s.push(x)[j] == y);
        }
        assert(s.push(x).contains(y));
    };
}

/// The state after traversing the named file: nothing changes when the
/// name is already on the recursion path, or when no given file carries
/// it; otherwise every line of the file is processed in order, with
/// directive lines recursed into depth-first.
pub open spec fn spec_run(
    files: Seq<SpecFile>,
    name: Seq<char>,
    path: Set<Seq<char>>,
    st: SpecState,
) -> SpecState
    decreases unvisited(files, path), 0nat, 0nat,
    via spec_run_dec
{
    if path.contains(name) {
        st
    } else {
        match spec_file_find(files, name) {
            None => st,
            Some(k) => spec_run_lines(files, files[k].lines, 0, path.insert(name), st),
        }
    }
}

#[via_fn]
proof fn spec_run_dec(files: Seq<SpecFile>, name: Seq<char>, path: Set<Seq<char>>, st: SpecState) {
    broadcast use vstd::seq_lib::seq_to_set_is_finite;

    if !path.contains(name) && spec_file_find(files, name) is Some {
        lemma_found_in_names(files, name);
        file_names(files).lemma_set_insert_diff_decreases(path, name);
    }
}

/// The state after processing the lines of one file from position `i` on.
/// A directive line that names a file is recursed into before the next
/// line; every other line updates the state by its category.
pub open spec fn spec_run_lines(
    files: Seq<SpecFile>,
    lines: Seq<Seq<char>>,
    i: int,
    path: Set<Seq<char>>,
    st: SpecState,
) -> SpecState
    decreases unvisited(files, path), lines.len() - i, 1nat,
{
    if i < 0 || i >= lines.len() {
        st
    } else {
        let l = lines[i];
        let st2 = if spec_line_type(l) is Incl {
            match spec_incl_of(l) {
                Some(f) => spec_run(files, f, path, st),
                None => st,
            }
        } else {
            spec_apply_line(st, l)
        };
        spec_run_lines(files, lines, i + 1, path, st2)
    }
}

/// Whether `name` is on the recursion path.
fn on_stack(stack: &Vec<Vec<char>>, name: &Vec<char>) -> (r: bool)
    ensures
        r == path_of(stack@).contains(name@),
{
    let mut i: usize = 0;
    while i < stack.len()
        invariant
            i <= stack.len(),
            forall|j: int| 0 <= j < i ==> stack@[j]@ != name@,
        decreases stack.len() - i,
    {
        if chars_eq(&stack[i], name) {
            proof {
                assert(line_views(stack@)[i as int] == name@);
                assert(line_views(stack@).contains(name@));
            }
            return true;
        }
        i = i + 1;
    }
    proof {
        assert(forall|j: int|
            0 <= j < line_views(stack@).len() ==> line_views(stack@)[j] != name@);
        assert(!line_views(stack@).contains(name@));
    }
    false
}

/// Looks the named file up among the given files.
fn find_file(files: &Vec<HeaderFile>, name: &Vec<char>) -> (r: Option<usize>)
    ensures
        match r {
            Some(k) => k < files@.len() && spec_file_find(file_views(files@), name@) == Some(
                k as int,
            ),
            None => spec_file_find(file_views(files@), name@) is None,
        },
{
    let mut i: usize = 0;
    while i < files.len()
        invariant
            i <= files.len(),
            file_at(file_views(files@), name@, 0) == file_at(file_views(files@), name@, i as int),
        decreases files.len() - i,
    {
        proof {
            assert(file_views(files@)[i as int] == files@[i as int]@);
        }
        if chars_eq(&files[i].name, name) {
            return Some(i);
        }
        i = i + 1;
    }
    None
}

/// Applies one non-directive line to the model: class-declaration lines add
/// a class record or are skipped silently when a delimiter is missing;
/// declaration lines add a method or free-function record, or are recorded
/// as malformed when the tokenizer cannot split them; comment and unknown
/// lines change nothing.
pub fn apply_line(model: &mut Model, malformed: &mut Vec<Vec<char>>, l: &Vec<char>)
    ensures
        st_of(final(model), final(malformed)) == spec_apply_line(
            st_of(old(model), old(malformed)),
            l@,
        ),
{
    let ghost st0 = st_of(model, malformed);
    match line_type(l) {
        LineType::Incl => {},
        LineType::Comment => {},
        LineType::Unknown => {},
        LineType::ClassDecl => {
            match class_of_line(l) {
                Some(c) => {
                    let ghost cv = c@;
                    model.classes.push(c);
                    proof {
                        assert(class_views(model.classes@) =~= st0.model.classes.push(cv));
                    }
                },
                None => {},
            }
        },
        LineType::ClassDeclEx => {
            match class_ex_of_line(l) {
                Some(c) => {
                    let ghost cv = c@;
                    model.classes.push(c);
                    proof {
                        assert(class_views(model.classes@) =~= st0.model.classes.push(cv));
                    }
                },
                None => {},
            }
        },
        LineType::MethodDecl => {
            match method_of_line(l) {
                Some(m) => {
                    let ghost mv = m@;
                    model.methods.push(m);
                    proof {
                        assert(method_views(model.methods@) =~= st0.model.methods.push(mv));
                    }
                },
                None => {
                    malformed.push(copy_chars(l));
                    proof {
                        assert(line_views(malformed@) =~= st0.malformed.push(l@));
                    }
                },
            }
        },
        LineType::FunctionDecl => {
            match function_of_line(l) {
                Some(f) => {
                    let ghost fv = f@;
                    model.functions.push(f);
                    proof {
                        assert(function_views(model.functions@) =~= st0.model.functions.push(fv));
                    }
                },
                None => {
                    malformed.push(copy_chars(l));
                    proof {
                        assert(line_views(malformed@) =~= st0.malformed.push(l@));
                    }
                },
            }
        },
    }
    proof {
        assert(st_of(model, malformed) =~= spec_apply_line(st0, l@));
    }
}

/// Traverses the named file: processes its lines in order, recursing into
/// every directive line whose file is given and not already on the path.
fn run_file(
    files: &Vec<HeaderFile>,
    name: &Vec<char>,
    stack: Vec<Vec<char>>,
    model: &mut Model,
    malformed: &mut Vec<Vec<char>>,
) -> (stack_out: Vec<Vec<char>>)
    ensures
        stack_out@ == stack@,
        st_of(final(model), final(malformed)) == spec_run(
            file_views(files@),
            name@,
            path_of(stack@),
            st_of(old(model), old(malformed)),
        ),
    decreases unvisited(file_views(files@), path_of(stack@)),
{
    let ghost fv = file_views(files@);
    let ghost orig = stack@;
    let ghost st0 = st_of(model, malformed);
    if on_stack(&stack, name) {
        return stack;
    }
    let k = match find_file(files, name) {
        None => {
            return stack;
        },
        Some(k) => k,
    };
    let mut stack2 = stack;
    stack2.push(copy_chars(name));
    proof {
        assert(line_views(stack2@) =~= line_views(orig).push(name@));
        lemma_to_set_push(line_views(orig), name@);
        assert(path_of(stack2@) =~= path_of(orig).insert(name@));
    }
    let ghost path2 = path_of(orig).insert(name@);
    let ghost pushed = stack2@;
    let ghost lv = fv[k as int].lines;
    proof {
        assert(fv[k as int] == files@[k as int]@);
        lemma_found_in_names(fv, name@);
        broadcast use vstd::seq_lib::seq_to_set_is_finite;

        file_names(fv).lemma_set_insert_diff_decreases(path_of(orig), name@);
    }
    let nlines = files[k].lines.len();
    let mut i: usize = 0;
    while i < nlines
        invariant
            i <= nlines,
            stack2@ == pushed,
            path_of(stack2@) == path2,
            spec_run_lines(fv, lv, 0, path2, st0) == spec_run_lines(
                fv,
                lv,
                i as int,
                path2,
                st_of(model, malformed),
            ),
        decreases nlines - i,
    {
        let ghost st_cur = st_of(model, malformed);
        let l = &files[k].lines[i];
        proof {
            assert(lv[i as int] == files@[k as int].lines@[i as int]@);
            assert(lv[i as int] == l@);
        }
        match line_type(l) {
            LineType::Incl => {
                match incl_of_line(l) {
                    Some(inc) => {
                        stack2 = run_file(files, &inc, stack2, model, malformed);
                    },
                    None => {},
                }
            },
            _ => {
                apply_line(model, malformed, l);
            },
        }
        proof {
            assert(spec_run_lines(fv, lv, i as int, path2, st_cur) == spec_run_lines(
                fv,
                lv,
                i + 1,
                path2,
                st_of(model, malformed),
            ));
        }
        i = i + 1;
    }
    proof {
        assert(spec_run_lines(fv, lv, nlines as int, path2, st_of(model, malformed)) == st_of(
            model,
            malformed,
        ));
        assert(spec_run(fv, name@, path_of(orig), st0) == spec_run_lines(fv, lv, 0, path2, st0));
    }
    let _ = stack2.pop();
    proof {
        assert(stack2@ =~= orig);
    }
    stack2
}

/// What a traversal hands back: the model and the malformed lines, or the
/// one fatal error.
pub type TraverseResult = Result<(Model, Vec<Vec<char>>), RunError>;

/// The one fatal condition of a run.
#[derive(Debug, PartialEq, Eq, Clone, Copy)]
pub enum RunError {
    /// The root file is not among the given files.
    RootNotFound,
}

/// Traverses the tree of files rooted at `root`, depth-first through the
/// directive lines, and returns the accumulated model together with the
/// declaration lines found malformed. Fails exactly when the root file is
/// not among the given files; a missing file named by a directive line only
/// ends that branch.
pub fn traverse(files: &Vec<HeaderFile>, root: &Vec<char>) -> (r: TraverseResult)
    ensures
        r is Ok <==> spec_file_find(file_views(files@), root@) is Some,
        r matches Ok(t) ==> (SpecState { model: t.0@, malformed: line_views(t.1@) }) == spec_run(
            file_views(files@),
            root@,
            Set::empty(),
            empty_state(),
        ),
        r matches Err(e) ==> e == RunError::RootNotFound,
{
    match find_file(files, root) {
        None => Err(RunError::RootNotFound),
        Some(_) => {
            let mut model = Model::empty();
            let mut malformed: Vec<Vec<char>> = Vec::new();
            let stack: Vec<Vec<char>> = Vec::new();
            proof {
                assert(path_of(stack@) =~= Set::<Seq<char>>::empty());
                assert(st_of(&model, &malformed) =~= empty_state());
            }
            let _ = run_file(files, root, stack, &mut model, &mut malformed);
            Ok((model, malformed))
        },
    }
}

} // verus!
