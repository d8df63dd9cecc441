//! Character-sequence helpers: first-occurrence search, splitting at a
//! delimiter, taking the text between two delimiters, trimming, and the
//! small normalisations the declaration tokenizer needs.
use vstd::prelude::*;

verus! {

/// First index `>= i` at which `p` occurs in `s`, if any.
pub open spec fn find_from(s: Seq<char>, p: char, i: int) -> Option<int>
    decreases s.len() - i,
{
    if i < 0 || i >= s.len() {
        None
    } else if s[i] == p {
        Some(i)
    } else {
        find_from(s, p, i + 1)
    }
}

/// First index at which `p` occurs in `s`, if any.
pub open spec fn spec_find(s: Seq<char>, p: char) -> Option<int> {
    find_from(s, p, 0)
}

/// The text before the first occurrence of `p`.
pub open spec fn spec_find_to(s: Seq<char>, p: char) -> Option<Seq<char>> {
    match spec_find(s, p) {
        Some(i) => Some(s.take(i)),
        None => None,
    }
}

/// The text before and the text after the first occurrence of `p`.
pub open spec fn spec_split_at(s: Seq<char>, p: char) -> Option<(Seq<char>, Seq<char>)> {
    match spec_find(s, p) {
        Some(i) => Some((s.take(i), s.skip(i + 1))),
        None => None,
    }
}

/// The text strictly between the first occurrence of `p` and the first
/// occurrence of `q` after it.
pub open spec fn spec_find_between(s: Seq<char>, p: char, q: char) -> Option<Seq<char>> {
    match spec_find(s, p) {
        Some(b) => match find_from(s, q, b + 1) {
            Some(e) => Some(s.subrange(b + 1, e)),
            None => None,
        },
        None => None,
    }
}

/// The whitespace characters that trimming removes.
pub open spec fn is_ws(c: char) -> bool {
    c == ' ' || c == '\t' || c == '\r' || c == '\n'
}

/// First index `>= i` whose character is not whitespace, or the length.
pub open spec fn skip_ws(s: Seq<char>, i: int) -> int
    decreases s.len() - i,
{
    if i < 0 || i >= s.len() {
        s.len() as int
    } else if is_ws(s[i]) {
        skip_ws(s, i + 1)
    } else {
        i
    }
}

/// Largest `e <= j` such that no whitespace stands at the end of `s.take(e)`.
pub open spec fn ws_end(s: Seq<char>, j: int) -> int
    decreases j,
{
    if j <= 0 || j > s.len() {
        0
    } else if is_ws(s[j - 1]) {
        ws_end(s, j - 1)
    } else {
        j
    }
}

/// `s` with leading and trailing whitespace removed.
pub open spec fn spec_trim(s: Seq<char>) -> Seq<char> {
    let a = skip_ws(s, 0);
    let b = ws_end(s, s.len() as int);
    if a < b {
        s.subrange(a, b)
    } else {
        Seq::empty()
    }
}

/// Largest `e <= j` such that `s.take(e)` does not end in `)` or `;`.
pub open spec fn term_end(s: Seq<char>, j: int) -> int
    decreases j,
{
    if j <= 0 || j > s.len() {
        0
    } else if s[j - 1] == ')' || s[j - 1] == ';' {
        term_end(s, j - 1)
    } else {
        j
    }
}

/// `s` with every trailing `)` and `;` removed.
pub open spec fn spec_strip_term(s: Seq<char>) -> Seq<char> {
    s.take(term_end(s, s.len() as int))
}

/// `s` from position `i` on, with every two-character sequence
/// "space then open paren" collapsed to a single open paren.
pub open spec fn collapse_from(s: Seq<char>, i: int) -> Seq<char>
    decreases s.len() - i,
{
    if i < 0 || i >= s.len() {
        Seq::empty()
    } else if i + 1 < s.len() && s[i] == ' ' && s[i + 1] == '(' {
        seq!['('] + collapse_from(s, i + 2)
    } else {
        seq![s[i]] + collapse_from(s, i + 1)
    }
}

/// `s` with every "space then open paren" collapsed to a single open paren.
pub open spec fn spec_collapse(s: Seq<char>) -> Seq<char> {
    collapse_from(s, 0)
}

/// `p` stands at the start of `s`.
pub open spec fn spec_starts_with(s: Seq<char>, p: Seq<char>) -> bool {
    p.len() <= s.len() && s.take(p.len() as int) == p
}

/// `p` stands at the end of `s`.
pub open spec fn spec_ends_with(s: Seq<char>, p: Seq<char>) -> bool {
    p.len() <= s.len() && s.skip(s.len() - p.len()) == p
}

/// `p` stands in `s` at position `i`.
pub open spec fn spec_contains_at(s: Seq<char>, p: Seq<char>, i: int) -> bool {
    0 <= i && i + p.len() <= s.len() && s.subrange(i, i + p.len()) == p
}

/// `p` stands somewhere in `s`.
pub open spec fn spec_contains(s: Seq<char>, p: Seq<char>) -> bool {
    exists|i: int| spec_contains_at(s, p, i)
}

/// A found position lies in range and holds the sought character.
pub proof fn lemma_find_from_range(s: Seq<char>, p: char, from: int)
    ensures
        match find_from(s, p, from) {
            Some(i) => from <= i < s.len() && s[i] == p,
            None => true,
        },
    decreases s.len() - from,
{
    if 0 <= from && from < s.len() && s[from] != p {
        lemma_find_from_range(s, p, from + 1);
    }
}

/// A first-occurrence search finds exactly the position whose earlier
/// positions all miss.
pub proof fn lemma_find_from_is(s: Seq<char>, p: char, from: int, i: int)
    requires
        0 <= from <= i < s.len(),
        s[i] == p,
        forall|j: int| from <= j < i ==> s[j] != p,
    ensures
        find_from(s, p, from) == Some(i),
    decreases i - from,
{
    if from < i {
        lemma_find_from_is(s, p, from + 1, i);
    }
}

/// Collapsing changes nothing in a string that holds no "space then open
/// paren" pair.
pub proof fn lemma_collapse_id(s: Seq<char>)
    requires
        forall|j: int| 0 <= j < s.len() - 1 ==> !(#[trigger] s[j] == ' ' && s[j + 1] == '('),
    ensures
        spec_collapse(s) == s,
{
    lemma_collapse_id_from(s, 0);
    assert(s.skip(0) =~= s);
}

proof fn lemma_collapse_id_from(s: Seq<char>, i: int)
    requires
        0 <= i <= s.len(),
        forall|j: int| 0 <= j < s.len() - 1 ==> !(#[trigger] s[j] == ' ' && s[j + 1] == '('),
    ensures
        collapse_from(s, i) == s.skip(i),
    decreases s.len() - i,
{
    if i >= s.len() {
        assert(s.skip(i) =~= Seq::empty());
    } else {
        lemma_collapse_id_from(s, i + 1);
        assert(seq![s[i]] + s.skip(i + 1) =~= s.skip(i));
    }
}

/// Trimming changes nothing in a non-empty string whose first and last
/// characters are not whitespace.
pub proof fn lemma_trim_ends(s: Seq<char>)
    requires
        s.len() > 0,
        !is_ws(s[0]),
        !is_ws(s[s.len() - 1]),
    ensures
        spec_trim(s) == s,
{
    assert(skip_ws(s, 0) == 0);
    assert(ws_end(s, s.len() as int) == s.len() as int);
    assert(s.subrange(0, s.len() as int) =~= s);
}

/// Stripping `)` and `;` from the end of `s + ");"` gives `s` back, when
/// `s` does not itself end in `)` or `;`.
pub proof fn lemma_strip_term_decl(s: Seq<char>)
    requires
        s.len() > 0 ==> s[s.len() - 1] != ')' && s[s.len() - 1] != ';',
    ensures
        spec_strip_term(s + seq![')', ';']) == s,
{
    let t = s + seq![')', ';'];
    assert(t[t.len() - 1] == ';');
    assert(t[t.len() - 2] == ')');
    assert(term_end(t, t.len() as int) == term_end(t, t.len() - 1));
    assert(term_end(t, t.len() - 1) == term_end(t, t.len() - 2));
    assert(term_end(t, s.len() as int) == s.len() as int);
    assert(t.take(s.len() as int) =~= s);
}

/// A fresh copy of `s[a..b]`.
pub fn copy_range(s: &Vec<char>, a: usize, b: usize) -> (r: Vec<char>)
    requires
        a <= b && b <= s.len(),
    ensures
        r@ == s@.subrange(a as int, b as int),
{
    let mut r: Vec<char> = Vec::new();
    let mut i: usize = a;
    while i < b
        invariant
            a <= i <= b,
            r@ == s@.subrange(a as int, i as int),
        decreases b - i,
    {
        r.push(s[i]);
        proof {
            assert(s@.subrange(a as int, i + 1) =~= s@.subrange(a as int, i as int).push(
                s@[i as int],
            ));
        }
        i = i + 1;
    }
    r
}

/// A fresh copy of `s`.
pub fn copy_chars(s: &Vec<char>) -> (r: Vec<char>)
    ensures
        r@ == s@,
{
    let r = copy_range(s, 0, s.len());
    proof {
        assert(s@.subrange(0, s@.len() as int) =~= s@);
    }
    r
}

/// Whether `a` and `b` hold the same characters.
pub fn chars_eq(a: &Vec<char>, b: &Vec<char>) -> (r: bool)
    ensures
        r == (a@ == b@),
{
    if a.len() != b.len() {
        return false;
    }
    let mut i: usize = 0;
    while i < a.len()
        invariant
            i <= a.len(),
            forall|j: int| 0 <= j < i ==> a@[j] == b@[j],
        decreases a.len() - i,
    {
        if a[i] != b[i] {
            return false;
        }
        i = i + 1;
    }
    proof {
        assert(a@ =~= b@);
    }
    true
}

/// First position `>= from` holding `p`, if any.
pub fn find_char_from(s: &Vec<char>, p: char, from: usize) -> (r: Option<usize>)
    ensures
        match r {
            Some(i) => from <= i < s@.len() && find_from(s@, p, from as int) == Some(i as int),
            None => find_from(s@, p, from as int) is None,
        },
{
    let mut i: usize = from;
    while i < s.len()
        invariant
            from <= i,
            find_from(s@, p, from as int) == find_from(s@, p, i as int),
        decreases s.len() - i,
    {
        if s[i] == p {
            return Some(i);
        }
        i = i + 1;
    }
    None
}

/// First position holding `p`, if any.
pub fn find_char(s: &Vec<char>, p: char) -> (r: Option<usize>)
    ensures
        match r {
            Some(i) => 0 <= i < s@.len() && spec_find(s@, p) == Some(i as int),
            None => spec_find(s@, p) is None,
        },
{
    find_char_from(s, p, 0)
}

/// The text before the first occurrence of `p`, if `p` occurs at all.
pub fn find_to(s: &Vec<char>, p: char) -> (r: Option<Vec<char>>)
    ensures
        r is Some <==> spec_find_to(s@, p) is Some,
        r matches Some(t) ==> spec_find_to(s@, p) == Some(t@),
{
    match find_char(s, p) {
        Some(i) => Some(copy_range(s, 0, i)),
        None => None,
    }
}

/// The text before and the text after the first occurrence of `p`,
/// if `p` occurs at all.
pub fn split_at(s: &Vec<char>, p: char) -> (r: Option<(Vec<char>, Vec<char>)>)
    ensures
        r is Some <==> spec_split_at(s@, p) is Some,
        r matches Some(pair) ==> spec_split_at(s@, p) == Some((pair.0@, pair.1@)),
{
    let n = s.len();
    match find_char(s, p) {
        Some(i) => {
            let left = copy_range(s, 0, i);
            let right = copy_range(s, i + 1, n);
            Some((left, right))
        },
        None => None,
    }
}

/// The text strictly between the first occurrence of `p` and the first
/// occurrence of `q` after it, if both occur.
pub fn find_between(s: &Vec<char>, p: char, q: char) -> (r: Option<Vec<char>>)
    ensures
        r is Some <==> spec_find_between(s@, p, q) is Some,
        r matches Some(t) ==> spec_find_between(s@, p, q) == Some(t@),
{
    let n = s.len();
    match find_char(s, p) {
        Some(b) => {
            proof {
                assert(b < n);
            }
            match find_char_from(s, q, b + 1) {
                Some(e) => Some(copy_range(s, b + 1, e)),
                None => None,
            }
        },
        None => None,
    }
}

/// `s` with leading and trailing whitespace removed.
pub fn trim(s: &Vec<char>) -> (r: Vec<char>)
    ensures
        r@ == spec_trim(s@),
{
    let mut a: usize = 0;
    while a < s.len() && is_ws_char(s[a])
        invariant
            a <= s.len(),
            skip_ws(s@, 0) == skip_ws(s@, a as int),
        decreases s.len() - a,
    {
        a = a + 1;
    }
    let mut b: usize = s.len();
    while b > 0 && is_ws_char(s[b - 1])
        invariant
            b <= s.len(),
            ws_end(s@, s@.len() as int) == ws_end(s@, b as int),
        decreases b,
    {
        b = b - 1;
    }
    proof {
        assert(ws_end(s@, b as int) == b);
        assert(skip_ws(s@, a as int) == if a < s@.len() {
            a as int
        } else {
            s@.len() as int
        });
    }
    if a < b {
        copy_range(s, a, b)
    } else {
        Vec::new()
    }
}

/// Whether `c` counts as whitespace for trimming.
pub fn is_ws_char(c: char) -> (r: bool)
    ensures
        r == is_ws(c),
{
    c == ' ' || c == '\t' || c == '\r' || c == '\n'
}

/// `s` with every trailing `)` and `;` removed.
pub fn strip_term(s: &Vec<char>) -> (r: Vec<char>)
    ensures
        r@ == spec_strip_term(s@),
{
    let mut b: usize = s.len();
    while b > 0 && (s[b - 1] == ')' || s[b - 1] == ';')
        invariant
            b <= s.len(),
            term_end(s@, s@.len() as int) == term_end(s@, b as int),
        decreases b,
    {
        b = b - 1;
    }
    proof {
        assert(term_end(s@, b as int) == b);
        assert(s@.take(b as int) =~= s@.subrange(0, b as int));
    }
    copy_range(s, 0, b)
}

/// `s` with every "space then open paren" collapsed to a single open paren.
pub fn collapse(s: &Vec<char>) -> (r: Vec<char>)
    ensures
        r@ == spec_collapse(s@),
{
    let mut r: Vec<char> = Vec::new();
    let mut i: usize = 0;
    while i < s.len()
        invariant
            i <= s.len(),
            spec_collapse(s@) == r@ + collapse_from(s@, i as int),
        decreases s.len() - i,
    {
        if i + 1 < s.len() && s[i] == ' ' && s[i + 1] == '(' {
            r.push('(');
            proof {
                assert(collapse_from(s@, i as int) == seq!['('] + collapse_from(s@, i + 2));
                assert(spec_collapse(s@) =~= r@ + collapse_from(s@, i + 2));
            }
            i = i + 2;
        } else {
            r.push(s[i]);
            proof {
                assert(collapse_from(s@, i as int) == seq![s@[i as int]] + collapse_from(
                    s@,
                    i + 1,
                ));
                assert(spec_collapse(s@) =~= r@ + collapse_from(s@, i + 1));
            }
            i = i + 1;
        }
    }
    proof {
        assert(spec_collapse(s@) =~= r@);
    }
    r
}

/// Whether `p` stands at the start of `s`.
pub fn starts_with(s: &Vec<char>, p: &Vec<char>) -> (r: bool)
    ensures
        r == spec_starts_with(s@, p@),
{
    if p.len() > s.len() {
        return false;
    }
    let mut i: usize = 0;
    while i < p.len()
        invariant
            i <= p.len() <= s.len(),
            forall|j: int| 0 <= j < i ==> s@[j] == p@[j],
        decreases p.len() - i,
    {
        if s[i] != p[i] {
            proof {
                assert(s@.take(p@.len() as int)[i as int] != p@[i as int]);
            }
            return false;
        }
        i = i + 1;
    }
    proof {
        assert(s@.take(p@.len() as int) =~= p@);
    }
    true
}

/// Whether `p` stands at the end of `s`.
pub fn ends_with(s: &Vec<char>, p: &Vec<char>) -> (r: bool)
    ensures
        r == spec_ends_with(s@, p@),
{
    if p.len() > s.len() {
        return false;
    }
    let off: usize = s.len() - p.len();
    let mut i: usize = 0;
    while i < p.len()
        invariant
            i <= p.len() <= s.len(),
            off == s.len() - p.len(),
            forall|j: int| 0 <= j < i ==> s@[off + j] == p@[j],
        decreases p.len() - i,
    {
        if s[off + i] != p[i] {
            proof {
                assert(s@.skip(s@.len() - p@.len())[i as int] != p@[i as int]);
            }
            return false;
        }
        i = i + 1;
    }
    proof {
        assert(s@.skip(s@.len() - p@.len()) =~= p@);
    }
    true
}

/// Whether `p` stands in `s` at position `i`.
pub fn matches_at(s: &Vec<char>, p: &Vec<char>, i: usize) -> (r: bool)
    requires
        i + p.len() <= s.len(),
    ensures
        r == spec_contains_at(s@, p@, i as int),
{
    let mut j: usize = 0;
    while j < p.len()
        invariant
            j <= p.len(),
            i + p.len() <= s.len(),
            forall|k: int| 0 <= k < j ==> s@[i + k] == p@[k],
        decreases p.len() - j,
    {
        if s[i + j] != p[j] {
            proof {
                assert(s@.subrange(i as int, i + p@.len())[j as int] != p@[j as int]);
            }
            return false;
        }
        j = j + 1;
    }
    proof {
        assert(s@.subrange(i as int, i + p@.len()) =~= p@);
    }
    true
}

/// Whether `p` stands somewhere in `s`.
pub fn contains_sub(s: &Vec<char>, p: &Vec<char>) -> (r: bool)
    ensures
        r == spec_contains(s@, p@),
{
    if p.len() > s.len() {
        proof {
            assert(forall|i: int| !spec_contains_at(s@, p@, i));
        }
        return false;
    }
    if p.len() == 0 {
        proof {
            assert(s@.subrange(0, 0) =~= p@);
            assert(spec_contains_at(s@, p@, 0));
        }
        return true;
    }
    let last: usize = s.len() - p.len();
    let mut i: usize = 0;
    while i <= last
        invariant
            i <= last + 1,
            last == s.len() - p.len(),
            forall|k: int| 0 <= k < i ==> !spec_contains_at(s@, p@, k),
        decreases last + 1 - i,
    {
        if matches_at(s, p, i) {
            return true;
        }
        i = i + 1;
    }
    proof {
        assert(forall|k: int| spec_contains_at(s@, p@, k) ==> 0 <= k <= last as int);
    }
    false
}

} // verus!
