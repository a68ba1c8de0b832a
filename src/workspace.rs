//! Workspace names: `iz-<milliseconds since the epoch>-<random hex>`.

use vstd::prelude::*;
use vstd::arithmetic::div_mod::{lemma_div_decreases, lemma_fundamental_div_mod, lemma_small_mod};

verus! {

/// The prefix shared by all workspace names.
pub open spec fn workspace_prefix() -> Seq<char> {
    seq!['i', 'z', '-']
}

/// The character for digit `d` (below sixteen), in lower case.
pub open spec fn digit_char(d: nat) -> char {
    seq!['0', '1', '2', '3', '4', '5', '6', '7', '8', '9', 'a', 'b', 'c', 'd', 'e', 'f'][d as int]
}

/// The value of a lower-case digit character.
pub open spec fn digit_value(c: char) -> nat {
    if '0' <= c <= '9' {
        (c as nat - '0' as nat) as nat
    } else {
        (c as nat - 'a' as nat + 10) as nat
    }
}

/// `n` written in base `b` (2 to 16), most significant digit first, without
/// leading zeros.
pub open spec fn digits(n: nat, b: nat) -> Seq<char>
    decreases n,
    via digits_decreases
{
    if b < 2 || n < b {
        seq![digit_char(n)]
    } else {
        digits(n / b, b).push(digit_char(n % b))
    }
}

#[via_fn]
proof fn digits_decreases(n: nat, b: nat) {
    if !(b < 2 || n < b) {
        lemma_div_decreases(n as int, b as int);
    }
}

/// The number that a sequence of digits in base `b` stands for.
pub open spec fn digits_value(s: Seq<char>, b: nat) -> nat
    decreases s.len(),
{
    if s.len() == 0 {
        0
    } else {
        digits_value(s.drop_last(), b) * b + digit_value(s.last())
    }
}

/// The name of the workspace made at `timestamp_ms` with random value `random`.
pub open spec fn workspace_name_of(timestamp_ms: nat, random: nat) -> Seq<char> {
    workspace_prefix() + digits(timestamp_ms, 10) + seq!['-'] + digits(random, 16)
}

/// Whether `name` has the workspace prefix.
pub open spec fn is_workspace_name_spec(name: Seq<char>) -> bool {
    name.len() >= 3 && name.subrange(0, 3) == workspace_prefix()
}

/// Appends the digit `d` of base sixteen or less.
fn append_digit(out: &mut String, d: u128)
    requires
        d < 16,
    ensures
        final(out)@ == old(out)@.push(digit_char(d as nat)),
{
    let all = "0123456789abcdef";
    proof {
        reveal_strlit("0123456789abcdef");
    }
    let ghost before = out@;
    out.append(all.substring_char(d as usize, d as usize + 1));
    assert(out@ =~= before.push(digit_char(d as nat)));
}

/// Appends `n` written in base `b`.
fn append_digits(out: &mut String, n: u128, b: u128)
    requires
        2 <= b <= 16,
    ensures
        final(out)@ == old(out)@ + digits(n as nat, b as nat),
    decreases n,
{
    let ghost before = out@;
    if n >= b {
        proof {
            lemma_div_decreases(n as int, b as int);
        }
        append_digits(out, n / b, b);
        append_digit(out, n % b);
        assert(out@ =~= before + digits(n as nat, b as nat));
    } else {
        proof {
            lemma_small_mod(n as nat, b as nat);
        }
        append_digit(out, n);
        assert(out@ =~= before + digits(n as nat, b as nat));
    }
}

/// The workspace name for a creation time in milliseconds since the epoch and
/// a random value.
pub fn workspace_name(timestamp_ms: u128, random: u32) -> (r: String)
    ensures
        r@ == workspace_name_of(timestamp_ms as nat, random as nat),
{
    let mut r = String::from_str("iz-");
    proof {
        reveal_strlit("iz-");
        reveal_strlit("-");
    }
    append_digits(&mut r, timestamp_ms, 10);
    r.append("-");
    append_digits(&mut r, random as u128, 16);
    assert(r@ =~= workspace_name_of(timestamp_ms as nat, random as nat));
    r
}

/// Whether `name` is the name of a workspace, that is, starts with `iz-`.
pub fn is_workspace_name(name: &str) -> (r: bool)
    ensures
        r == is_workspace_name_spec(name@),
{
    let n = name.unicode_len();
    if n < 3 {
        return false;
    }
    let r = name.get_char(0) == 'i' && name.get_char(1) == 'z' && name.get_char(2) == '-';
    assert(r ==> name@.subrange(0, 3) =~= workspace_prefix());
    r
}

pub assume_specification<T>[ rand::random::<T> ]() -> (r: T)
    where
        rand::distributions::Standard: rand::distributions::Distribution<T>,
;

/// A workspace name for `timestamp_ms` with a freshly drawn random value.
pub fn fresh_workspace_name(timestamp_ms: u128) -> (r: String)
    ensures
        exists|x: u32| r@ == workspace_name_of(timestamp_ms as nat, x as nat),
{
    let random: u32 = rand::random();
    workspace_name(timestamp_ms, random)
}

proof fn lemma_digit_round_trip(d: nat)
    requires
        d < 16,
    ensures
        digit_value(digit_char(d)) == d,
{
    if d == 0 {
        assert(digit_char(d) == '0');
    } else if d == 1 {
        assert(digit_char(d) == '1');
    } else if d == 2 {
        assert(digit_char(d) == '2');
    } else if d == 3 {
        assert(digit_char(d) == '3');
    } else if d == 4 {
        assert(digit_char(d) == '4');
    } else if d == 5 {
        assert(digit_char(d) == '5');
    } else if d == 6 {
        assert(digit_char(d) == '6');
    } else if d == 7 {
        assert(digit_char(d) == '7');
    } else if d == 8 {
        assert(digit_char(d) == '8');
    } else if d == 9 {
        assert(digit_char(d) == '9');
    } else if d == 10 {
        assert(digit_char(d) == 'a');
    } else if d == 11 {
        assert(digit_char(d) == 'b');
    } else if d == 12 {
        assert(digit_char(d) == 'c');
    } else if d == 13 {
        assert(digit_char(d) == 'd');
    } else if d == 14 {
        assert(digit_char(d) == 'e');
    } else if d == 15 {
        assert(digit_char(d) == 'f');
    }
}

proof fn lemma_digits_value(n: nat, b: nat)
    requires
        2 <= b <= 16,
    ensures
        digits_value(digits(n, b), b) == n,
    decreases n,
{
    let s = digits(n, b);
    if n < b {
        lemma_digit_round_trip(n);
        assert(s.drop_last() =~= Seq::<char>::empty());
        assert(digits_value(s, b) == digits_value(s.drop_last(), b) * b + digit_value(s.last()));
        assert(digits_value(s.drop_last(), b) == 0);
        assert(0 * b == 0) by (nonlinear_arith);
    } else {
        let q = n / b;
        let m = n % b;
        lemma_div_decreases(n as int, b as int);
        lemma_digits_value(q, b);
        assert(s.drop_last() =~= digits(q, b));
        assert(s.last() == digit_char(m));
        lemma_fundamental_div_mod(n as int, b as int);
        lemma_digit_round_trip(m);
        assert(digits_value(s, b) == q * b + m);
        assert(n == q * b + m) by (nonlinear_arith)
            requires
                n == b * q + m,
        ;
    }
}

/// Workspaces made in the same millisecond get distinct names whenever their
/// random values differ.
pub proof fn law_distinct_random_distinct_names(timestamp_ms: nat, r1: nat, r2: nat)
    requires
        r1 != r2,
    ensures
        workspace_name_of(timestamp_ms, r1) != workspace_name_of(timestamp_ms, r2),
{
    let head = workspace_prefix() + digits(timestamp_ms, 10) + seq!['-'];
    let n1 = workspace_name_of(timestamp_ms, r1);
    let n2 = workspace_name_of(timestamp_ms, r2);
    assert(n1 == head + digits(r1, 16));
    assert(n2 == head + digits(r2, 16));
    if n1 == n2 {
        assert(digits(r1, 16) =~= n1.subrange(head.len() as int, n1.len() as int));
        assert(digits(r2, 16) =~= n2.subrange(head.len() as int, n2.len() as int));
        lemma_digits_value(r1, 16);
        lemma_digits_value(r2, 16);
    }
}

/// Every workspace name carries the prefix by which stale workspaces are
/// recognised.
pub proof fn law_workspace_names_are_recognised(timestamp_ms: nat, random: nat)
    ensures
        is_workspace_name_spec(workspace_name_of(timestamp_ms, random)),
{
    let n = workspace_name_of(timestamp_ms, random);
    assert(n.subrange(0, 3) =~= workspace_prefix());
}

} // verus!
