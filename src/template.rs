//! Command templates: text with `#{name}` placeholders, resolved against a
//! list of parameters.
//!
//! A placeholder is `#`, `{`, one or more word characters (the `\w` class of
//! regular expressions) and `}`. Placeholders are found left to right and do
//! not overlap.

use vstd::prelude::*;

verus! {

/// Whether `c` belongs to the Unicode word class `\w`.
pub uninterp spec fn is_word_char(c: char) -> bool;

/// Relies on `regex_syntax::is_word_character`: the `\w` class that the regex
/// crate uses. It panics only without the crate's `unicode-perl` feature,
/// which its default features enable.
#[verifier::external_body]
fn word_char(c: char) -> (r: bool)
    ensures
        r == is_word_char(c),
{
    regex_syntax::is_word_character(c)
}

/// Number of consecutive word characters of `s` from index `i` on.
pub open spec fn word_run(s: Seq<char>, i: int) -> nat
    decreases s.len() - i,
{
    if 0 <= i < s.len() && is_word_char(s[i]) {
        1 + word_run(s, i + 1)
    } else {
        0
    }
}

/// A placeholder starts at index `i` of `s`.
pub open spec fn placeholder_at(s: Seq<char>, i: int) -> bool {
    &&& 0 <= i
    &&& i + 1 < s.len()
    &&& s[i] == '#'
    &&& s[i + 1] == '{'
    &&& word_run(s, i + 2) > 0
    &&& i + 2 + word_run(s, i + 2) < s.len()
    &&& s[i + 2 + word_run(s, i + 2)] == '}'
}

/// The name inside the placeholder that starts at `i`.
pub open spec fn placeholder_name(s: Seq<char>, i: int) -> Seq<char> {
    s.subrange(i + 2, i + 2 + word_run(s, i + 2))
}

/// The index just past the placeholder that starts at `i`.
pub open spec fn placeholder_end(s: Seq<char>, i: int) -> int {
    i + 3 + word_run(s, i + 2)
}

/// The names of the placeholders of `s` from index `i` on, in order.
pub open spec fn placeholder_names(s: Seq<char>, i: int) -> Seq<Seq<char>>
    decreases s.len() - i,
{
    if i < 0 || i >= s.len() {
        seq![]
    } else if placeholder_at(s, i) {
        seq![placeholder_name(s, i)] + placeholder_names(s, placeholder_end(s, i))
    } else {
        placeholder_names(s, i + 1)
    }
}

/// The first placeholder name from index `i` on that `m` has no value for.
pub open spec fn first_missing(s: Seq<char>, i: int, m: Map<Seq<char>, Seq<char>>) -> Option<
    Seq<char>,
>
    decreases s.len() - i,
{
    if i < 0 || i >= s.len() {
        None
    } else if placeholder_at(s, i) {
        if !m.contains_key(placeholder_name(s, i)) {
            Some(placeholder_name(s, i))
        } else {
            first_missing(s, placeholder_end(s, i), m)
        }
    } else {
        first_missing(s, i + 1, m)
    }
}

/// `s` from index `i` on, with each placeholder replaced by its value in `m`.
pub open spec fn rendered(s: Seq<char>, i: int, m: Map<Seq<char>, Seq<char>>) -> Seq<char>
    decreases s.len() - i,
{
    if i < 0 || i >= s.len() {
        seq![]
    } else if placeholder_at(s, i) {
        m[placeholder_name(s, i)] + rendered(s, placeholder_end(s, i), m)
    } else {
        seq![s[i]] + rendered(s, i + 1, m)
    }
}

/// The mapping that a list of parameters denotes: a later pair overrides an
/// earlier one with the same key.
pub open spec fn param_map(ps: Seq<(String, String)>) -> Map<Seq<char>, Seq<char>>
    decreases ps.len(),
{
    if ps.len() == 0 {
        Map::empty()
    } else {
        param_map(ps.drop_last()).insert(ps.last().0@, ps.last().1@)
    }
}

proof fn lemma_param_map_found(ps: Seq<(String, String)>, idx: int, k: Seq<char>)
    requires
        0 <= idx < ps.len(),
        ps[idx].0@ == k,
        forall|j: int| idx < j < ps.len() ==> ps[j].0@ != k,
    ensures
        param_map(ps).contains_key(k),
        param_map(ps)[k] == ps[idx].1@,
    decreases ps.len(),
{
    if idx < ps.len() - 1 {
        lemma_param_map_found(ps.drop_last(), idx, k);
    }
}

proof fn lemma_param_map_absent(ps: Seq<(String, String)>, k: Seq<char>)
    requires
        forall|j: int| 0 <= j < ps.len() ==> ps[j].0@ != k,
    ensures
        !param_map(ps).contains_key(k),
    decreases ps.len(),
{
    if ps.len() > 0 {
        lemma_param_map_absent(ps.drop_last(), k);
    }
}

/// Index of the pair that gives `key` its value, the last one with that key.
fn find_param(params: &Vec<(String, String)>, key: &String) -> (r: Option<usize>)
    ensures
        match r {
            Some(idx) => idx < params@.len() && param_map(params@).contains_key(key@)
                && param_map(params@)[key@] == params@[idx as int].1@,
            None => !param_map(params@).contains_key(key@),
        },
{
    let mut i: usize = params.len();
    while i > 0
        invariant
            i <= params@.len(),
            forall|j: int| i <= j < params@.len() ==> params@[j].0@ != key@,
        decreases i,
    {
        if params[i - 1].0 == *key {
            proof {
                lemma_param_map_found(params@, i - 1, key@);
            }
            return Some(i - 1);
        }
        i = i - 1;
    }
    proof {
        lemma_param_map_absent(params@, key@);
    }
    None
}

/// Length of the run of word characters of `t` that starts at `i`.
fn word_run_from(t: &str, n: usize, i: usize) -> (r: usize)
    requires
        n == t@.len(),
        i <= n,
    ensures
        r == word_run(t@, i as int),
        i + r <= n,
{
    let mut j: usize = i;
    while j < n && word_char(t.get_char(j))
        invariant
            n == t@.len(),
            i <= j <= n,
            word_run(t@, i as int) == (j - i) + word_run(t@, j as int),
        decreases n - j,
    {
        j = j + 1;
    }
    j - i
}

/// Where the placeholder that starts at `i` ends, if one starts there.
fn placeholder_end_at(t: &str, n: usize, i: usize) -> (r: Option<usize>)
    requires
        n == t@.len(),
        i < n,
    ensures
        r is Some <==> placeholder_at(t@, i as int),
        r matches Some(e) ==> e == placeholder_end(t@, i as int) && e <= n,
{
    if i + 1 < n && t.get_char(i) == '#' && t.get_char(i + 1) == '{' {
        let w = word_run_from(t, n, i + 2);
        if w > 0 && i + 2 + w < n && t.get_char(i + 2 + w) == '}' {
            return Some(i + 3 + w);
        }
    }
    None
}

/// A placeholder whose name has no parameter.
pub struct MissingParameter {
    pub name: String,
}

impl MissingParameter {
    /// The human-readable description of the error.
    pub fn message(&self) -> (r: String)
        ensures
            r@ == "Required parameter not found: "@ + self.name@,
    {
        let mut r = String::from_str("Required parameter not found: ");
        r.append(self.name.as_str());
        r
    }
}

/// Resolves every placeholder of `template` against `params`. Fails, naming
/// it, on the first placeholder whose name has no parameter.
pub fn substitute_variables(template: &str, params: &Vec<(String, String)>) -> (r: Result<
    String,
    MissingParameter,
>)
    ensures
        r is Ok <==> first_missing(template@, 0, param_map(params@)) is None,
        r matches Ok(out) ==> out@ == rendered(template@, 0, param_map(params@)),
        r matches Err(e) ==> first_missing(template@, 0, param_map(params@)) == Some(e.name@),
{
    let ghost t = template@;
    let ghost m = param_map(params@);
    let n = template.unicode_len();
    let mut out = String::new();
    let mut seg: usize = 0;
    let mut i: usize = 0;
    while i < n
        invariant
            n == t.len(),
            t == template@,
            m == param_map(params@),
            seg <= i <= n,
            out@ + t.subrange(seg as int, i as int) + rendered(t, i as int, m) == rendered(
                t,
                0,
                m,
            ),
            first_missing(t, i as int, m) == first_missing(t, 0, m),
        decreases n - i,
    {
        match placeholder_end_at(template, n, i) {
            Some(e) => {
                let name = template.substring_char(i + 2, e - 1).to_string();
                match find_param(params, &name) {
                    Some(idx) => {
                        let ghost prev = out@;
                        out.append(template.substring_char(seg, i));
                        out.append(params[idx].1.as_str());
                        assert(out@ + t.subrange(e as int, e as int) + rendered(t, e as int, m)
                            =~= prev + t.subrange(seg as int, i as int) + rendered(
                            t,
                            i as int,
                            m,
                        ));
                        seg = e;
                        i = e;
                    },
                    None => {
                        return Err(MissingParameter { name });
                    },
                }
            },
            None => {
                assert(out@ + t.subrange(seg as int, i + 1) + rendered(t, i + 1, m) =~= out@
                    + t.subrange(seg as int, i as int) + rendered(t, i as int, m));
                i = i + 1;
            },
        }
    }
    assert(out@ + t.subrange(seg as int, n as int) =~= out@ + t.subrange(seg as int, n as int)
        + rendered(t, n as int, m));
    out.append(template.substring_char(seg, n));
    Ok(out)
}

proof fn lemma_names_cons(t: Seq<char>, i: int, k: Seq<char>)
    requires
        0 <= i < t.len(),
        placeholder_at(t, i),
    ensures
        placeholder_names(t, i).contains(k) <==> (k == placeholder_name(t, i)
            || placeholder_names(t, placeholder_end(t, i)).contains(k)),
{
    let ns = placeholder_names(t, i);
    let rest = placeholder_names(t, placeholder_end(t, i));
    assert(ns == seq![placeholder_name(t, i)] + rest);
    if ns.contains(k) {
        let j = choose|j: int| 0 <= j < ns.len() && ns[j] == k;
        if j > 0 {
            assert(rest[j - 1] == k);
        }
    }
    if rest.contains(k) {
        let j = choose|j: int| 0 <= j < rest.len() && rest[j] == k;
        assert(ns[j + 1] == k);
    }
    if k == placeholder_name(t, i) {
        assert(ns[0] == k);
    }
}

proof fn lemma_first_missing(t: Seq<char>, i: int, m: Map<Seq<char>, Seq<char>>)
    ensures
        first_missing(t, i, m) is None <==> forall|k: Seq<char>|
            placeholder_names(t, i).contains(k) ==> m.contains_key(k),
        first_missing(t, i, m) matches Some(k) ==> placeholder_names(t, i).contains(k)
            && !m.contains_key(k),
    decreases t.len() - i,
{
    if i < 0 || i >= t.len() {
    } else if placeholder_at(t, i) {
        let nm = placeholder_name(t, i);
        let e = placeholder_end(t, i);
        lemma_first_missing(t, e, m);
        assert forall|k: Seq<char>| #[trigger]
            placeholder_names(t, i).contains(k) <==> (k == nm || placeholder_names(
                t,
                e,
            ).contains(k)) by {
            lemma_names_cons(t, i, k);
        }
    } else {
        lemma_first_missing(t, i + 1, m);
    }
}

/// Resolution is total: it finds no missing parameter exactly when every
/// placeholder name of the template is a key of the mapping, and a name it
/// reports missing is a placeholder name of the template that is not a key.
pub proof fn law_resolution_total(t: Seq<char>, m: Map<Seq<char>, Seq<char>>)
    ensures
        first_missing(t, 0, m) is None <==> forall|k: Seq<char>|
            placeholder_names(t, 0).contains(k) ==> m.contains_key(k),
        first_missing(t, 0, m) matches Some(k) ==> placeholder_names(t, 0).contains(k)
            && !m.contains_key(k),
{
    lemma_first_missing(t, 0, m);
}

proof fn lemma_rendered_no_hash(t: Seq<char>, i: int, m: Map<Seq<char>, Seq<char>>)
    requires
        first_missing(t, i, m) is None,
        forall|j: int| 0 <= j < t.len() && t[j] == '#' ==> placeholder_at(t, j),
        forall|k: Seq<char>| m.contains_key(k) ==> !m[k].contains('#'),
    ensures
        !rendered(t, i, m).contains('#'),
    decreases t.len() - i,
{
    let r = rendered(t, i, m);
    if i < 0 || i >= t.len() {
    } else if placeholder_at(t, i) {
        let v = m[placeholder_name(t, i)];
        let rest = rendered(t, placeholder_end(t, i), m);
        lemma_rendered_no_hash(t, placeholder_end(t, i), m);
        assert(r == v + rest);
        if r.contains('#') {
            let j = choose|j: int| 0 <= j < r.len() && r[j] == '#';
            if j < v.len() {
                assert(v[j] == '#');
            } else {
                assert(rest[j - v.len()] == '#');
            }
        }
    } else {
        let rest = rendered(t, i + 1, m);
        lemma_rendered_no_hash(t, i + 1, m);
        assert(r == seq![t[i]] + rest);
        if r.contains('#') {
            let j = choose|j: int| 0 <= j < r.len() && r[j] == '#';
            if j > 0 {
                assert(rest[j - 1] == '#');
            }
        }
    }
}

/// No placeholder syntax remains after a resolution in which every
/// placeholder name is a key, provided that each `#` of the template opens a
/// placeholder and that no value holds a `#`. (Without these provisions the
/// result may hold new placeholders: `#{#{a}}` with `a` = `x` gives `#{x}`.)
pub proof fn law_no_placeholder_remains(t: Seq<char>, m: Map<Seq<char>, Seq<char>>)
    requires
        forall|k: Seq<char>| placeholder_names(t, 0).contains(k) ==> m.contains_key(k),
        forall|j: int| 0 <= j < t.len() && t[j] == '#' ==> placeholder_at(t, j),
        forall|k: Seq<char>| m.contains_key(k) ==> !m[k].contains('#'),
    ensures
        forall|j: int| !placeholder_at(rendered(t, 0, m), j),
{
    lemma_first_missing(t, 0, m);
    lemma_rendered_no_hash(t, 0, m);
    let r = rendered(t, 0, m);
    assert forall|j: int| !placeholder_at(r, j) by {
        if placeholder_at(r, j) {
            assert(r.contains('#'));
        }
    }
}

} // verus!
