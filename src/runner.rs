//! Turning a resolved command string into a program and its arguments.
//!
//! The command is split on whitespace; there is no quoting.

use vstd::prelude::*;

verus! {

/// Whether `c` is white space in the sense of Unicode's `White_Space`.
pub uninterp spec fn is_space(c: char) -> bool;

/// Relies on `char::is_whitespace`: whether the character has the Unicode
/// `White_Space` property.
#[verifier::external_body]
pub(crate) fn space_char(c: char) -> (r: bool)
    ensures
        r == is_space(c),
{
    c.is_whitespace()
}

/// Number of consecutive non-space characters of `s` from index `i` on.
pub open spec fn word_len(s: Seq<char>, i: int) -> nat
    decreases s.len() - i,
{
    if 0 <= i < s.len() && !is_space(s[i]) {
        1 + word_len(s, i + 1)
    } else {
        0
    }
}

/// The maximal runs of non-space characters of `s` from index `i` on, in order.
pub open spec fn words(s: Seq<char>, i: int) -> Seq<Seq<char>>
    decreases s.len() - i,
    via words_decreases
{
    if i < 0 || i >= s.len() {
        seq![]
    } else if is_space(s[i]) {
        words(s, i + 1)
    } else {
        let e = i + 1 + word_len(s, i + 1);
        seq![s.subrange(i, e)] + words(s, e)
    }
}

proof fn lemma_word_len_bound(s: Seq<char>, i: int)
    requires
        0 <= i <= s.len(),
    ensures
        i + word_len(s, i) <= s.len(),
    decreases s.len() - i,
{
    if i < s.len() {
        lemma_word_len_bound(s, i + 1);
    }
}

#[via_fn]
proof fn words_decreases(s: Seq<char>, i: int) {
    if 0 <= i < s.len() && !is_space(s[i]) {
        lemma_word_len_bound(s, i + 1);
    }
}

/// The views of a list of strings.
pub open spec fn views(v: Seq<String>) -> Seq<Seq<char>> {
    v.map_values(|x: String| x@)
}

/// Length of the run of non-space characters of `s` that starts at `i`.
fn word_len_from(s: &str, n: usize, i: usize) -> (r: usize)
    requires
        n == s@.len(),
        i <= n,
    ensures
        r == word_len(s@, i as int),
        i + r <= n,
{
    let mut j: usize = i;
    while j < n && !space_char(s.get_char(j))
        invariant
            n == s@.len(),
            i <= j <= n,
            word_len(s@, i as int) == (j - i) + word_len(s@, j as int),
        decreases n - j,
    {
        j = j + 1;
    }
    j - i
}

/// The whitespace-separated words of `s`.
pub fn split_words(s: &str) -> (r: Vec<String>)
    ensures
        views(r@) == words(s@, 0),
{
    let n = s.unicode_len();
    let mut r: Vec<String> = Vec::new();
    let mut i: usize = 0;
    while i < n
        invariant
            n == s@.len(),
            i <= n,
            views(r@) + words(s@, i as int) == words(s@, 0),
        decreases n - i,
    {
        if space_char(s.get_char(i)) {
            i = i + 1;
        } else {
            let w = word_len_from(s, n, i);
            let ghost before = r@;
            r.push(s.substring_char(i, i + w).to_string());
            assert(views(r@) =~= views(before).push(s@.subrange(i as int, i + w)));
            assert(views(r@) + words(s@, i + w) =~= views(before) + words(s@, i as int));
            i = i + w;
        }
    }
    assert(views(r@) =~= views(r@) + words(s@, n as int));
    r
}

/// A program to start and the arguments to hand it.
pub struct CommandLine {
    pub program: String,
    pub args: Vec<String>,
}

/// A command with no word in it.
pub struct EmptyCommand;

impl EmptyCommand {
    /// The human-readable description of the error.
    pub fn message(&self) -> (r: String)
        ensures
            r@ == "Empty command"@,
    {
        String::from_str("Empty command")
    }
}

/// Splits `command` on whitespace: the first word is the program, the others
/// its arguments. Fails on a command without words.
pub fn parse_command_line(command: &str) -> (r: Result<CommandLine, EmptyCommand>)
    ensures
        r is Err <==> words(command@, 0).len() == 0,
        r matches Ok(c) ==> c.program@ == words(command@, 0)[0] && views(c.args@) == words(
            command@,
            0,
        ).skip(1),
{
    let mut all = split_words(command);
    if all.len() == 0 {
        return Err(EmptyCommand);
    }
    let ghost ws = views(all@);
    let program = all.remove(0);
    assert(views(all@) =~= ws.skip(1));
    Ok(CommandLine { program, args: all })
}

} // verus!
