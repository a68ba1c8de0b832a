//! The stale workspace reaper: which entries of the base directory are
//! abandoned workspaces, whether the user agreed to remove them, and the
//! tally of what was removed.

use vstd::prelude::*;
use crate::runner::is_space;
use crate::workspace::{is_workspace_name, is_workspace_name_spec};

verus! {

/// An entry of the base directory, as its name and whether it is a directory,
/// is a stale workspace.
pub open spec fn is_stale(e: (String, bool)) -> bool {
    e.1 && is_workspace_name_spec(e.0@)
}

/// The names of the stale workspaces among `es`, in the order of `es`.
pub open spec fn stale_names(es: Seq<(String, bool)>) -> Seq<Seq<char>>
    decreases es.len(),
{
    if es.len() == 0 {
        seq![]
    } else {
        let rest = stale_names(es.drop_last());
        if is_stale(es.last()) {
            rest.push(es.last().0@)
        } else {
            rest
        }
    }
}

/// The names of the directory entries (name, is a directory) that are stale
/// workspaces: directories whose name starts with `iz-`.
pub fn select_stale(entries: &Vec<(String, bool)>) -> (r: Vec<String>)
    ensures
        r@.map_values(|x: String| x@) == stale_names(entries@),
{
    let mut r: Vec<String> = Vec::new();
    let mut i: usize = 0;
    while i < entries.len()
        invariant
            i <= entries@.len(),
            r@.map_values(|x: String| x@) == stale_names(entries@.take(i as int)),
        decreases entries@.len() - i,
    {
        let ghost before = r@;
        assert(entries@.take(i + 1).drop_last() =~= entries@.take(i as int));
        assert(entries@.take(i + 1).last() == entries@[i as int]);
        if entries[i].1 && is_workspace_name(entries[i].0.as_str()) {
            r.push(entries[i].0.clone());
            assert(r@.map_values(|x: String| x@) =~= before.map_values(|x: String| x@).push(
                entries@[i as int].0@,
            ));
        }
        i = i + 1;
    }
    assert(entries@.take(entries@.len() as int) =~= entries@);
    r
}

/// `s` without leading white space.
pub open spec fn trim_start(s: Seq<char>) -> Seq<char>
    decreases s.len(),
{
    if s.len() > 0 && is_space(s[0]) {
        trim_start(s.skip(1))
    } else {
        s
    }
}

/// `s` without trailing white space.
pub open spec fn trim_end(s: Seq<char>) -> Seq<char>
    decreases s.len(),
{
    if s.len() > 0 && is_space(s.last()) {
        trim_end(s.drop_last())
    } else {
        s
    }
}

/// `s` without leading or trailing white space.
pub open spec fn trimmed(s: Seq<char>) -> Seq<char> {
    trim_end(trim_start(s))
}

/// Relies on `str::trim`: the slice without leading and trailing characters
/// of the Unicode `White_Space` property, those of `char::is_whitespace`.
#[verifier::external_body]
fn trim_spaces<'a>(s: &'a str) -> (r: &'a str)
    ensures
        r@ == trimmed(s@),
{
    s.trim()
}

/// The lower-case form of `s` by Unicode's case mapping.
pub uninterp spec fn lower_of(s: Seq<char>) -> Seq<char>;

/// Relies on `str::to_lowercase`: the lower-case form, a function of the
/// characters alone.
#[verifier::external_body]
fn lowercase(s: &str) -> (r: String)
    ensures
        r@ == lower_of(s@),
{
    s.to_lowercase()
}

/// An affirmative answer, once trimmed and in lower case: `y` or `yes`.
pub open spec fn is_yes(s: Seq<char>) -> bool {
    s == seq!['y'] || s == seq!['y', 'e', 's']
}

/// Whether an answer already trimmed and in lower case is affirmative.
pub fn is_affirmative(folded: &str) -> (r: bool)
    ensures
        r == is_yes(folded@),
{
    let n = folded.unicode_len();
    if n == 1 {
        let r = folded.get_char(0) == 'y';
        assert(r ==> folded@ =~= seq!['y']);
        r
    } else if n == 3 {
        let r = folded.get_char(0) == 'y' && folded.get_char(1) == 'e' && folded.get_char(2)
            == 's';
        assert(r ==> folded@ =~= seq!['y', 'e', 's']);
        r
    } else {
        false
    }
}

/// Whether the user's answer to the confirmation prompt agrees: `y` or `yes`
/// in any case, with surrounding white space ignored. Anything else,
/// a blank line included, declines.
pub fn confirms(answer: &str) -> (r: bool)
    ensures
        r == is_yes(lower_of(trimmed(answer@))),
{
    let t = trim_spaces(answer);
    let folded = lowercase(t);
    is_affirmative(folded.as_str())
}

/// Number of `true` entries of `s`.
pub open spec fn count_true(s: Seq<bool>) -> nat
    decreases s.len(),
{
    if s.len() == 0 {
        0
    } else {
        count_true(s.drop_last()) + if s.last() {
            1nat
        } else {
            0nat
        }
    }
}

/// How many stale workspaces were removed and how many could not be.
#[derive(Clone, Copy, Debug, PartialEq, Eq, Structural)]
pub struct CleanSummary {
    pub cleaned: usize,
    pub failed: usize,
}

/// The tally of a batch of removals, one outcome (removed or not) for each.
pub fn summarize(outcomes: &Vec<bool>) -> (r: CleanSummary)
    ensures
        r.cleaned == count_true(outcomes@),
        r.cleaned + r.failed == outcomes@.len(),
{
    let mut cleaned: usize = 0;
    let mut failed: usize = 0;
    let mut i: usize = 0;
    while i < outcomes.len()
        invariant
            i <= outcomes@.len(),
            cleaned == count_true(outcomes@.take(i as int)),
            cleaned + failed == i,
        decreases outcomes@.len() - i,
    {
        assert(outcomes@.take(i + 1).drop_last() =~= outcomes@.take(i as int));
        if outcomes[i] {
            cleaned = cleaned + 1;
        } else {
            failed = failed + 1;
        }
        i = i + 1;
    }
    assert(outcomes@.take(outcomes@.len() as int) =~= outcomes@);
    CleanSummary { cleaned, failed }
}

proof fn lemma_none_stale(es: Seq<(String, bool)>)
    requires
        forall|i: int| 0 <= i < es.len() ==> !is_stale(es[i]),
    ensures
        stale_names(es).len() == 0,
    decreases es.len(),
{
    if es.len() > 0 {
        lemma_none_stale(es.drop_last());
    }
}

/// A base directory with no stale workspace, whatever else it holds, leaves
/// the reaper nothing to remove, and the tally of no removals is zero cleaned
/// and zero failed.
pub proof fn law_nothing_stale_nothing_cleaned(es: Seq<(String, bool)>, outcomes: Seq<bool>)
    requires
        forall|i: int| 0 <= i < es.len() ==> !is_stale(es[i]),
        outcomes.len() == stale_names(es).len(),
    ensures
        stale_names(es).len() == 0,
        count_true(outcomes) == 0,
        outcomes.len() - count_true(outcomes) == 0,
{
    lemma_none_stale(es);
}

} // verus!
