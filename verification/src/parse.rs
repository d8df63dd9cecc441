//! The declaration tokenizer, the argument parser, and the extraction of
//! class records, methods and free functions from matched lines.
use vstd::prelude::*;

use crate::classify::{
    classdef_marker, classdefex_marker, incl_marker, spec_line_type, LineType,
};
use crate::model::{
    arg_views, line_views, method_views, Arg, ClassDef, Function, Method, SpecArg, SpecClassDef,
    SpecFunction, SpecMethod, SpecModel, SpecState,
};
use crate::text::{
    collapse, copy_chars, copy_range, find_between, find_char, is_ws, lemma_collapse_id,
    lemma_find_from_is, lemma_find_from_range, lemma_strip_term_decl, lemma_trim_ends,
    spec_collapse, spec_find, spec_find_between, spec_split_at, spec_starts_with, spec_strip_term,
    spec_trim, split_at, strip_term, trim,
};

verus! {

/// The comma-separated segments of `s`. A string without commas is one
/// segment, so the empty string gives one empty segment.
pub open spec fn spec_split_commas(s: Seq<char>) -> Seq<Seq<char>>
    decreases s.len(),
    via spec_split_commas_dec
{
    match spec_find(s, ',') {
        None => seq![s],
        Some(i) => seq![s.take(i)] + spec_split_commas(s.skip(i + 1)),
    }
}

#[via_fn]
proof fn spec_split_commas_dec(s: Seq<char>) {
    lemma_find_from_range(s, ',', 0);
}

/// One argument parsed from one comma-separated segment: the trimmed
/// segment split at its first space, or the raw segment kept whole when
/// no space is found.
pub open spec fn spec_to_arg(s: Seq<char>) -> SpecArg {
    match spec_split_at(spec_trim(s), ' ') {
        Some(p) => SpecArg::Named { name: p.0, ctype: p.1 },
        None => SpecArg::Unparsed { raw: s },
    }
}

/// The arguments of a raw argument-list string: none for the empty string,
/// otherwise one per comma-separated segment.
pub open spec fn spec_parse_args(s: Seq<char>) -> Seq<SpecArg> {
    if s.len() == 0 {
        Seq::empty()
    } else {
        spec_split_commas(s).map_values(|t: Seq<char>| spec_to_arg(t))
    }
}

/// The return type, C symbol and raw argument-list string of a declaration
/// line: the line is normalised by collapsing "space then open paren", then
/// split at the first space and the first open paren, and the remainder
/// loses surrounding whitespace and the trailing `)` and `;` characters.
pub open spec fn spec_tokenize(l: Seq<char>) -> Option<(Seq<char>, Seq<char>, Seq<char>)> {
    let n = spec_collapse(l);
    match spec_split_at(n, ' ') {
        None => None,
        Some(p) => match spec_split_at(p.1, '(') {
            None => None,
            Some(q) => Some((p.0, spec_trim(q.0), spec_strip_term(spec_trim(q.1)))),
        },
    }
}

/// The owning-class prefix and method-name suffix of a C symbol, split at
/// its first underscore. A symbol without an underscore yields the whole
/// symbol as the attempted class name and an empty method name.
pub open spec fn spec_sym_split(cfn: Seq<char>) -> (Seq<char>, Seq<char>) {
    match spec_split_at(cfn, '_') {
        Some(p) => p,
        None => (cfn, Seq::empty()),
    }
}

/// The class record of a simple class-declaration line: the trimmed text
/// between the first `(` and the first `)` after it, no parent, no methods.
pub open spec fn spec_class_of(l: Seq<char>) -> Option<SpecClassDef> {
    match spec_find_between(l, '(', ')') {
        Some(s) => Some(
            SpecClassDef { name: spec_trim(s), parent: None, methods: Seq::empty() },
        ),
        None => None,
    }
}

/// The class record of an extended class-declaration line: the trimmed text
/// between `(` and the first `,` names the class, the trimmed text between
/// the first `,` and the `)` after it names the parent.
pub open spec fn spec_class_ex_of(l: Seq<char>) -> Option<SpecClassDef> {
    match (spec_find_between(l, '(', ','), spec_find_between(l, ',', ')')) {
        (Some(n), Some(p)) => Some(
            SpecClassDef { name: spec_trim(n), parent: Some(spec_trim(p)), methods: Seq::empty() },
        ),
        _ => None,
    }
}

/// The file named by a directive line: the text strictly between the first
/// two double-quote characters.
pub open spec fn spec_incl_of(l: Seq<char>) -> Option<Seq<char>> {
    spec_find_between(l, '"', '"')
}

/// The method record of a declaration line that carries a method marker.
pub open spec fn spec_method_of(l: Seq<char>) -> Option<SpecMethod> {
    match spec_tokenize(l) {
        None => None,
        Some(t) => Some(
            SpecMethod {
                cfn: t.1,
                ret: t.0,
                name: spec_sym_split(t.1).1,
                class: spec_sym_split(t.1).0,
                args: spec_parse_args(t.2),
            },
        ),
    }
}

/// The free-function record of a declaration line.
pub open spec fn spec_function_of(l: Seq<char>) -> Option<SpecFunction> {
    match spec_tokenize(l) {
        None => None,
        Some(t) => Some(SpecFunction { cfn: t.1, ret: t.0, args: spec_parse_args(t.2) }),
    }
}

/// What one line, taken on its own, does to the traversal state, by its
/// category: class-declaration lines add a class record or are skipped when
/// a delimiter is missing; declaration lines add a method or free-function
/// record, or are recorded as malformed when the tokenizer cannot split
/// them; directive, comment and unknown lines change nothing here.
pub open spec fn spec_apply_line(st: SpecState, l: Seq<char>) -> SpecState {
    match spec_line_type(l) {
        LineType::Incl => st,
        LineType::Comment => st,
        LineType::Unknown => st,
        LineType::ClassDecl => match spec_class_of(l) {
            Some(c) => SpecState {
                model: SpecModel {
                    classes: st.model.classes.push(c),
                    methods: st.model.methods,
                    functions: st.model.functions,
                },
                malformed: st.malformed,
            },
            None => st,
        },
        LineType::ClassDeclEx => match spec_class_ex_of(l) {
            Some(c) => SpecState {
                model: SpecModel {
                    classes: st.model.classes.push(c),
                    methods: st.model.methods,
                    functions: st.model.functions,
                },
                malformed: st.malformed,
            },
            None => st,
        },
        LineType::MethodDecl => match spec_method_of(l) {
            Some(m) => SpecState {
                model: SpecModel {
                    classes: st.model.classes,
                    methods: st.model.methods.push(m),
                    functions: st.model.functions,
                },
                malformed: st.malformed,
            },
            None => SpecState { model: st.model, malformed: st.malformed.push(l) },
        },
        LineType::FunctionDecl => match spec_function_of(l) {
            Some(f) => SpecState {
                model: SpecModel {
                    classes: st.model.classes,
                    methods: st.model.methods,
                    functions: st.model.functions.push(f),
                },
                malformed: st.malformed,
            },
            None => SpecState { model: st.model, malformed: st.malformed.push(l) },
        },
    }
}

/// For every line matching the directive pattern, the extracted filename
/// equals the text strictly between the first two double-quote characters:
/// `b` the position of the first quote, `e` the position of the first quote
/// after it.
pub proof fn lemma_incl_between(l: Seq<char>, b: int, e: int)
    requires
        0 <= b < e < l.len(),
        l[b] == '"',
        l[e] == '"',
        forall|j: int| 0 <= j < b ==> l[j] != '"',
        forall|j: int| b < j < e ==> l[j] != '"',
    ensures
        spec_incl_of(l) == Some(l.subrange(b + 1, e)),
{
    lemma_find_from_is(l, '"', 0, b);
    lemma_find_from_is(l, '"', b + 1, e);
}

/// For every line built as the simple class-declaration marker, a name
/// free of parentheses, a closing paren and anything after it, the line
/// classifies as a class declaration and parses to a class record of the
/// trimmed name, with no parent and no methods.
pub proof fn lemma_classdef_line(n: Seq<char>, rest: Seq<char>)
    requires
        forall|j: int| 0 <= j < n.len() ==> #[trigger] n[j] != '(' && n[j] != ')',
    ensures
        ({
            let l = classdef_marker() + n + seq![')'] + rest;
            spec_line_type(l) == LineType::ClassDecl && spec_class_of(l) == Some(
                SpecClassDef { name: spec_trim(n), parent: None, methods: Seq::empty() },
            )
        }),
{
    let m = classdef_marker();
    let l = m + n + seq![')'] + rest;
    assert(l[0] == 'T');
    assert(!spec_starts_with(l, incl_marker())) by {
        if spec_starts_with(l, incl_marker()) {
            assert(l.take(incl_marker().len() as int)[0] == l[0]);
        }
    }
    assert(spec_starts_with(l, m)) by {
        assert(l.take(m.len() as int) =~= m);
    }
    assert(forall|j: int| 0 <= j < m.len() ==> l[j] == m[j]);
    assert(forall|j: int| 0 <= j < 9 ==> #[trigger] m[j] != '(');
    lemma_find_from_is(l, '(', 0, 9);
    assert(forall|j: int| 10 <= j < 10 + n.len() ==> l[j] == n[j - 10]);
    lemma_find_from_is(l, ')', 10, 10 + n.len() as int);
    assert(l.subrange(10, 10 + n.len() as int) =~= n);
}

/// For every line built as the extended class-declaration marker, a name
/// free of commas and closing parens, a comma, a parent name free of
/// closing parens, a closing paren and anything after it, the line
/// classifies as an extended class declaration and parses to a class
/// record of the trimmed name with the trimmed parent.
pub proof fn lemma_classdefex_line(n: Seq<char>, p: Seq<char>, rest: Seq<char>)
    requires
        forall|j: int| 0 <= j < n.len() ==> #[trigger] n[j] != ',' && n[j] != ')',
        forall|j: int| 0 <= j < p.len() ==> #[trigger] p[j] != ')',
    ensures
        ({
            let l = classdefex_marker() + n + seq![','] + p + seq![')'] + rest;
            spec_line_type(l) == LineType::ClassDeclEx && spec_class_ex_of(l) == Some(
                SpecClassDef {
                    name: spec_trim(n),
                    parent: Some(spec_trim(p)),
                    methods: Seq::empty(),
                },
            )
        }),
{
    let m = classdefex_marker();
    let l = m + n + seq![','] + p + seq![')'] + rest;
    let c0 = 16 + n.len() as int;
    let e0 = c0 + 1 + p.len() as int;
    assert(l[0] == 'T');
    assert(!spec_starts_with(l, incl_marker())) by {
        if spec_starts_with(l, incl_marker()) {
            assert(l.take(incl_marker().len() as int)[0] == l[0]);
        }
    }
    assert(forall|j: int| 0 <= j < m.len() ==> l[j] == m[j]);
    assert(!spec_starts_with(l, classdef_marker())) by {
        if spec_starts_with(l, classdef_marker()) {
            assert(l.take(classdef_marker().len() as int)[9] == l[9]);
            assert(classdef_marker()[9] == '(');
            assert(m[9] == 'E');
        }
    }
    assert(spec_starts_with(l, m)) by {
        assert(l.take(m.len() as int) =~= m);
    }
    assert(forall|j: int| 16 <= j < 16 + n.len() ==> l[j] == n[j - 16]);
    assert(forall|j: int| c0 + 1 <= j < c0 + 1 + p.len() ==> l[j] == p[j - (c0 + 1)]);
    assert(forall|j: int| 0 <= j < 15 ==> #[trigger] m[j] != '(');
    lemma_find_from_is(l, '(', 0, 15);
    assert(l[c0] == ',');
    lemma_find_from_is(l, ',', 16, c0);
    assert(l.subrange(16, c0) =~= n);
    assert(forall|j: int| 0 <= j < 16 ==> #[trigger] m[j] != ',');
    lemma_find_from_is(l, ',', 0, c0);
    assert(l[e0] == ')');
    lemma_find_from_is(l, ')', c0 + 1, e0);
    assert(l.subrange(c0 + 1, e0) =~= p);
}

/// For every declaration line built as a return type, a space, a C symbol,
/// an open paren, a raw argument list and the closing `);`, the tokenizer
/// yields exactly those three pieces, and the method and free-function
/// records follow: the symbol split at its first underscore names the
/// owning class and the method, and the argument list is parsed from the
/// raw piece alone.
pub proof fn lemma_decl_line(ret: Seq<char>, sym: Seq<char>, raw: Seq<char>)
    requires
        ret.len() > 0,
        forall|j: int| 0 <= j < ret.len() ==> !is_ws(#[trigger] ret[j]),
        sym.len() > 0,
        forall|j: int| 0 <= j < sym.len() ==> !is_ws(#[trigger] sym[j]) && sym[j] != '(',
        forall|j: int|
            0 <= j < raw.len() - 1 ==> !(#[trigger] raw[j] == ' ' && raw[j + 1] == '('),
        raw.len() > 0 ==> !is_ws(raw[0]) && !is_ws(raw[raw.len() - 1]) && raw[raw.len() - 1]
            != ')' && raw[raw.len() - 1] != ';' && raw[0] != '(',
    ensures
        ({
            let l = ret + seq![' '] + sym + seq!['('] + raw + seq![')', ';'];
            spec_tokenize(l) == Some((ret, sym, raw)) && spec_method_of(l) == Some(
                SpecMethod {
                    cfn: sym,
                    ret: ret,
                    name: spec_sym_split(sym).1,
                    class: spec_sym_split(sym).0,
                    args: spec_parse_args(raw),
                },
            ) && spec_function_of(l) == Some(
                SpecFunction { cfn: sym, ret: ret, args: spec_parse_args(raw) },
            )
        }),
{
    let l = ret + seq![' '] + sym + seq!['('] + raw + seq![')', ';'];
    let a = ret.len() as int;
    let q = a + 1 + sym.len() as int;
    assert(l[a] == ' ');
    assert(l[q] == '(');
    assert(forall|j: int| 0 <= j < a ==> l[j] == ret[j]);
    assert(forall|j: int| a + 1 <= j < q ==> l[j] == sym[j - (a + 1)]);
    assert(forall|j: int| q + 1 <= j < q + 1 + raw.len() ==> l[j] == raw[j - (q + 1)]);
    assert(l[q + 1 + raw.len() as int] == ')');
    assert(l[q + 2 + raw.len() as int] == ';');
    lemma_collapse_id(l);
    lemma_find_from_is(l, ' ', 0, a);
    assert(l.take(a) =~= ret);
    let rem = l.skip(a + 1);
    assert(rem =~= sym + seq!['('] + raw + seq![')', ';']);
    lemma_find_from_is(rem, '(', 0, sym.len() as int);
    assert(rem.take(sym.len() as int) =~= sym);
    let after = rem.skip(sym.len() as int + 1);
    assert(after =~= raw + seq![')', ';']);
    lemma_trim_ends(sym);
    assert(!is_ws(after[0]));
    assert(!is_ws(after[after.len() - 1]));
    lemma_trim_ends(after);
    lemma_strip_term_decl(raw);
}

/// Splits `s` into its comma-separated segments.
pub fn split_commas(s: &Vec<char>) -> (r: Vec<Vec<char>>)
    ensures
        line_views(r@) == spec_split_commas(s@),
{
    let mut segs: Vec<Vec<char>> = Vec::new();
    let mut rest: Vec<char> = copy_chars(s);
    #[verifier::loop_isolation(true)]
    loop
        invariant_except_break
            spec_split_commas(s@) == line_views(segs@) + spec_split_commas(rest@),
        ensures
            line_views(segs@) == spec_split_commas(s@),
        decreases rest@.len(),
    {
        let ghost old_segs = segs@;
        let ghost old_rest = rest@;
        match find_char(&rest, ',') {
            None => {
                segs.push(rest);
                proof {
                    assert(spec_split_commas(old_rest) == seq![old_rest]);
                    assert(line_views(segs@) =~= line_views(old_segs) + seq![old_rest]);
                    assert(line_views(segs@) =~= spec_split_commas(s@));
                }
                break;
            },
            Some(i) => {
                let n = rest.len();
                let seg = copy_range(&rest, 0, i);
                let new_rest = copy_range(&rest, i + 1, n);
                segs.push(seg);
                rest = new_rest;
                proof {
                    assert(spec_split_commas(old_rest) == seq![old_rest.take(i as int)]
                        + spec_split_commas(old_rest.skip(i + 1)));
                    assert(seg@ =~= old_rest.take(i as int));
                    assert(rest@ =~= old_rest.skip(i + 1));
                    assert(line_views(segs@) =~= line_views(old_segs) + seq![seg@]);
                    assert(line_views(segs@) + spec_split_commas(rest@) =~= line_views(old_segs)
                        + spec_split_commas(old_rest));
                }
            },
        }
    }
    segs
}

/// Parses one comma-separated segment into an argument.
pub fn to_arg(s: &Vec<char>) -> (r: Arg)
    ensures
        r@ == spec_to_arg(s@),
{
    let t = trim(s);
    match split_at(&t, ' ') {
        Some(p) => Arg::Named { name: p.0, ctype: p.1 },
        None => Arg::Unparsed { raw: copy_chars(s) },
    }
}

/// Parses a raw argument-list string. A string with zero characters yields
/// zero arguments, not one.
pub fn parse_args(raw: &Vec<char>) -> (r: Vec<Arg>)
    ensures
        arg_views(r@) == spec_parse_args(raw@),
        raw@.len() == 0 ==> r@.len() == 0,
{
    let mut args: Vec<Arg> = Vec::new();
    if raw.len() == 0 {
        proof {
            assert(arg_views(args@) =~= spec_parse_args(raw@));
        }
        return args;
    }
    let segs = split_commas(raw);
    let ghost f = |t: Seq<char>| spec_to_arg(t);
    let mut i: usize = 0;
    while i < segs.len()
        invariant
            i <= segs.len(),
            arg_views(args@) =~= line_views(segs@).map_values(f).take(i as int),
        decreases segs.len() - i,
    {
        let a = to_arg(&segs[i]);
        args.push(a);
        proof {
            assert(line_views(segs@)[i as int] == segs@[i as int]@);
            assert(arg_views(args@) =~= line_views(segs@).map_values(f).take(i + 1));
        }
        i = i + 1;
    }
    proof {
        assert(line_views(segs@).map_values(f).take(segs@.len() as int) =~= line_views(
            segs@,
        ).map_values(f));
        assert(arg_views(args@) =~= spec_parse_args(raw@));
    }
    args
}

/// Splits a declaration line into its return type, C symbol and raw
/// argument-list string, or reports the line malformed when a delimiter
/// is missing.
pub fn tokenize(l: &Vec<char>) -> (r: Option<(Vec<char>, Vec<char>, Vec<char>)>)
    ensures
        r is Some <==> spec_tokenize(l@) is Some,
        r matches Some(t) ==> spec_tokenize(l@) == Some((t.0@, t.1@, t.2@)),
{
    let n = collapse(l);
    match split_at(&n, ' ') {
        None => None,
        Some(p) => match split_at(&p.1, '(') {
            None => None,
            Some(q) => {
                let cfn = trim(&q.0);
                let args = strip_term(&trim(&q.1));
                Some((p.0, cfn, args))
            },
        },
    }
}

/// Extracts the class record of a simple class-declaration line, or nothing
/// when the line is missing a delimiter.
pub fn class_of_line(l: &Vec<char>) -> (r: Option<ClassDef>)
    ensures
        r is Some <==> spec_class_of(l@) is Some,
        r matches Some(c) ==> spec_class_of(l@) == Some(c@),
{
    match find_between(l, '(', ')') {
        Some(s) => {
            let c = ClassDef { name: trim(&s), parent: None, methods: Vec::new() };
            proof {
                assert(method_views(c.methods@) =~= Seq::<SpecMethod>::empty());
            }
            Some(c)
        },
        None => None,
    }
}

/// Extracts the class record of an extended class-declaration line, or
/// nothing when the line is missing a delimiter.
pub fn class_ex_of_line(l: &Vec<char>) -> (r: Option<ClassDef>)
    ensures
        r is Some <==> spec_class_ex_of(l@) is Some,
        r matches Some(c) ==> spec_class_ex_of(l@) == Some(c@),
{
    match find_between(l, '(', ',') {
        Some(n) => match find_between(l, ',', ')') {
            Some(p) => {
                let c = ClassDef { name: trim(&n), parent: Some(trim(&p)), methods: Vec::new() };
                proof {
                    assert(method_views(c.methods@) =~= Seq::<SpecMethod>::empty());
                }
                Some(c)
            },
            None => None,
        },
        None => None,
    }
}

/// Extracts the file named by a directive line: the text strictly between
/// the first two double-quote characters, or nothing when the quotes are
/// missing.
pub fn incl_of_line(l: &Vec<char>) -> (r: Option<Vec<char>>)
    ensures
        r is Some <==> spec_incl_of(l@) is Some,
        r matches Some(t) ==> spec_incl_of(l@) == Some(t@),
{
    find_between(l, '"', '"')
}

/// Extracts the method record of a declaration line, or reports the line
/// malformed when the tokenizer is missing a delimiter.
pub fn method_of_line(l: &Vec<char>) -> (r: Option<Method>)
    ensures
        r is Some <==> spec_method_of(l@) is Some,
        r matches Some(m) ==> spec_method_of(l@) == Some(m@),
{
    match tokenize(l) {
        None => None,
        Some(t) => {
            let args = parse_args(&t.2);
            let (class, name) = match split_at(&t.1, '_') {
                Some(p) => p,
                None => (copy_chars(&t.1), Vec::new()),
            };
            Some(Method { cfn: t.1, ret: t.0, name, class, args })
        },
    }
}

/// Extracts the free-function record of a declaration line, or reports the
/// line malformed when the tokenizer is missing a delimiter.
pub fn function_of_line(l: &Vec<char>) -> (r: Option<Function>)
    ensures
        r is Some <==> spec_function_of(l@) is Some,
        r matches Some(f) ==> spec_function_of(l@) == Some(f@),
{
    match tokenize(l) {
        None => None,
        Some(t) => {
            let args = parse_args(&t.2);
            Some(Function { cfn: t.1, ret: t.0, args })
        },
    }
}

} // verus!

