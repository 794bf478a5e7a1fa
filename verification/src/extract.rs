//! The numeric pattern extractor: reads `(major, minor, patch)` out of free
//! text by a tolerant, order-preserving scan.

use vstd::prelude::*;
use crate::chars::{is_digit, is_sep, is_digit_exec, is_sep_exec, lower_char, lower_seq, lowercase};
use crate::numbers::{
    dec_value, dec_digits, capped, parse_number, lemma_dec_digits_are_digits,
    lemma_dec_value_of_digits,
};
use crate::semver::{SemanticVersion, render_spec};

verus! {

/// Index of the first digit at or after `i`, or the length if there is none.
pub open spec fn first_digit_from(s: Seq<char>, i: int) -> int
    decreases s.len() - i when 0 <= i <= s.len()
{
    if i >= s.len() {
        i
    } else if is_digit(s[i]) {
        i
    } else {
        first_digit_from(s, i + 1)
    }
}

/// End of the digit run beginning at `i`: the first index at or after `i`
/// holding no digit.
pub open spec fn run_end(s: Seq<char>, i: int) -> int
    decreases s.len() - i when 0 <= i <= s.len()
{
    if i < s.len() && is_digit(s[i]) {
        run_end(s, i + 1)
    } else {
        i
    }
}

/// A further numeric group starts at `k`: one separator directly followed by
/// a digit.
pub open spec fn group_follows(s: Seq<char>, k: int) -> bool {
    k + 1 < s.len() && is_sep(s[k]) && is_digit(s[k + 1])
}

/// The numeric pattern `letter? digits (sep digits)? (sep digits)?`, scanned
/// from the first digit of `s`: up to three digit runs separated by single
/// dots or dashes, read as (major, minor, patch), absent groups zero.
/// `None` when `s` holds no digit at all.
pub open spec fn extract_triple(s: Seq<char>) -> Option<(nat, nat, nat)> {
    let j = first_digit_from(s, 0);
    if j >= s.len() {
        None
    } else {
        let k = run_end(s, j);
        let major = capped(dec_value(s.subrange(j, k)));
        if group_follows(s, k) {
            let m = run_end(s, k + 1);
            let minor = capped(dec_value(s.subrange(k + 1, m)));
            if group_follows(s, m) {
                let e = run_end(s, m + 1);
                Some((major, minor, capped(dec_value(s.subrange(m + 1, e)))))
            } else {
                Some((major, minor, 0))
            }
        } else {
            Some((major, 0, 0))
        }
    }
}

proof fn lemma_first_digit_from_is(s: Seq<char>, i: int, j: int)
    requires
        0 <= i <= j <= s.len(),
        forall|k: int| i <= k < j ==> !is_digit(#[trigger] s[k]),
        j < s.len() ==> is_digit(s[j]),
    ensures
        first_digit_from(s, i) == j,
    decreases j - i,
{
    if i < j {
        lemma_first_digit_from_is(s, i + 1, j);
    }
}

proof fn lemma_run_end_is(s: Seq<char>, i: int, j: int)
    requires
        0 <= i <= j <= s.len(),
        forall|k: int| i <= k < j ==> is_digit(#[trigger] s[k]),
        j < s.len() ==> !is_digit(s[j]),
    ensures
        run_end(s, i) == j,
    decreases j - i,
{
    if i < j {
        lemma_run_end_is(s, i + 1, j);
    }
}

proof fn lemma_sep_not_digit(c: char)
    requires
        is_sep(c),
    ensures
        !is_digit(c),
{
}

/// Law: text of the shape `letter? digits` (one numeric group, nothing after
/// it) parses to that group as the major component, minor and patch zero.
pub proof fn lemma_extract_one_group(pre: Seq<char>, d1: Seq<char>)
    requires
        pre.len() <= 1,
        forall|k: int| 0 <= k < pre.len() ==> !is_digit(#[trigger] pre[k]),
        d1.len() >= 1,
        forall|k: int| 0 <= k < d1.len() ==> is_digit(#[trigger] d1[k]),
    ensures
        extract_triple(pre + d1) == Some((capped(dec_value(d1)), 0nat, 0nat)),
{
    let s = pre + d1;
    let p = pre.len() as int;
    assert(forall|k: int| 0 <= k < p ==> s[k] == pre[k]);
    assert(forall|k: int| p <= k < s.len() ==> s[k] == d1[k - p]);
    lemma_first_digit_from_is(s, 0, p);
    lemma_run_end_is(s, p, s.len() as int);
    assert(s.subrange(p, s.len() as int) =~= d1);
    assert(!group_follows(s, s.len() as int));
}

/// Law: text of the shape `letter? digits sep digits` parses to the two
/// numeric groups as major and minor, patch zero.
pub proof fn lemma_extract_two_groups(pre: Seq<char>, d1: Seq<char>, s1: char, d2: Seq<char>)
    requires
        pre.len() <= 1,
        forall|k: int| 0 <= k < pre.len() ==> !is_digit(#[trigger] pre[k]),
        d1.len() >= 1,
        forall|k: int| 0 <= k < d1.len() ==> is_digit(#[trigger] d1[k]),
        is_sep(s1),
        d2.len() >= 1,
        forall|k: int| 0 <= k < d2.len() ==> is_digit(#[trigger] d2[k]),
    ensures
        extract_triple(pre + d1 + seq![s1] + d2) == Some(
            (capped(dec_value(d1)), capped(dec_value(d2)), 0nat),
        ),
{
    let s = pre + d1 + seq![s1] + d2;
    let p = pre.len() as int;
    let a1 = p + d1.len();
    let a2 = a1 + 1;
    lemma_sep_not_digit(s1);
    assert(forall|k: int| 0 <= k < p ==> s[k] == pre[k]);
    assert(forall|k: int| p <= k < a1 ==> s[k] == d1[k - p]);
    assert(s[a1] == s1);
    assert(forall|k: int| a2 <= k < s.len() ==> s[k] == d2[k - a2]);
    lemma_first_digit_from_is(s, 0, p);
    lemma_run_end_is(s, p, a1);
    assert(s.subrange(p, a1) =~= d1);
    assert(group_follows(s, a1));
    lemma_run_end_is(s, a2, s.len() as int);
    assert(s.subrange(a2, s.len() as int) =~= d2);
    assert(!group_follows(s, s.len() as int));
}

/// Law: text of the shape `letter? digits sep digits sep digits` parses to
/// the three numeric groups, in order, as major, minor and patch.
pub proof fn lemma_extract_three_groups(
    pre: Seq<char>,
    d1: Seq<char>,
    s1: char,
    d2: Seq<char>,
    s2: char,
    d3: Seq<char>,
)
    requires
        pre.len() <= 1,
        forall|k: int| 0 <= k < pre.len() ==> !is_digit(#[trigger] pre[k]),
        d1.len() >= 1,
        forall|k: int| 0 <= k < d1.len() ==> is_digit(#[trigger] d1[k]),
        is_sep(s1),
        d2.len() >= 1,
        forall|k: int| 0 <= k < d2.len() ==> is_digit(#[trigger] d2[k]),
        is_sep(s2),
        d3.len() >= 1,
        forall|k: int| 0 <= k < d3.len() ==> is_digit(#[trigger] d3[k]),
    ensures
        extract_triple(pre + d1 + seq![s1] + d2 + seq![s2] + d3) == Some(
            (capped(dec_value(d1)), capped(dec_value(d2)), capped(dec_value(d3))),
        ),
{
    let s = pre + d1 + seq![s1] + d2 + seq![s2] + d3;
    let p = pre.len() as int;
    let a1 = p + d1.len();
    let a2 = a1 + 1;
    let b2 = a2 + d2.len();
    let a3 = b2 + 1;
    lemma_sep_not_digit(s1);
    lemma_sep_not_digit(s2);
    assert(forall|k: int| 0 <= k < p ==> s[k] == pre[k]);
    assert(forall|k: int| p <= k < a1 ==> s[k] == d1[k - p]);
    assert(s[a1] == s1);
    assert(forall|k: int| a2 <= k < b2 ==> s[k] == d2[k - a2]);
    assert(s[b2] == s2);
    assert(forall|k: int| a3 <= k < s.len() ==> s[k] == d3[k - a3]);
    lemma_first_digit_from_is(s, 0, p);
    lemma_run_end_is(s, p, a1);
    assert(s.subrange(p, a1) =~= d1);
    assert(group_follows(s, a1));
    lemma_run_end_is(s, a2, b2);
    assert(s.subrange(a2, b2) =~= d2);
    assert(group_follows(s, b2));
    lemma_run_end_is(s, a3, s.len() as int);
    assert(s.subrange(a3, s.len() as int) =~= d3);
}

proof fn lemma_lower_identity(c: char)
    requires
        is_digit(c) || is_sep(c),
    ensures
        lower_char(c) == c,
{
}

/// Law: rendering a version that carries no identifier and reading the
/// rendered string back through the numeric pattern reproduces major, minor
/// and patch exactly.
pub proof fn lemma_render_reparse(v: SemanticVersion)
    requires
        v.ident is None,
    ensures
        extract_triple(lower_seq(render_spec(v))) == Some(
            ((v.major as nat), (v.minor as nat), (v.patch as nat)),
        ),
{
    let dmaj = dec_digits(v.major as nat);
    let dmin = dec_digits(v.minor as nat);
    let dpat = dec_digits(v.patch as nat);
    let base = dmaj + seq!['.'] + dmin + seq!['.'] + dpat;
    lemma_dec_digits_are_digits(v.major as nat);
    lemma_dec_digits_are_digits(v.minor as nat);
    lemma_dec_digits_are_digits(v.patch as nat);
    assert(render_spec(v) == base);
    assert forall|k: int| 0 <= k < base.len() implies lower_char(#[trigger] base[k]) == base[k] by {
        if k < dmaj.len() {
            assert(base[k] == dmaj[k]);
            lemma_lower_identity(base[k]);
        } else if k == dmaj.len() {
            assert(base[k] == '.');
            lemma_lower_identity(base[k]);
        } else if k < dmaj.len() + 1 + dmin.len() {
            assert(base[k] == dmin[k - (dmaj.len() + 1)]);
            lemma_lower_identity(base[k]);
        } else if k == dmaj.len() + 1 + dmin.len() {
            assert(base[k] == '.');
            lemma_lower_identity(base[k]);
        } else {
            assert(base[k] == dpat[k - (dmaj.len() + 1 + dmin.len() + 1)]);
            lemma_lower_identity(base[k]);
        }
    }
    assert(lower_seq(base) =~= base);
    assert(base =~= Seq::<char>::empty() + dmaj + seq!['.'] + dmin + seq!['.'] + dpat);
    lemma_extract_three_groups(Seq::<char>::empty(), dmaj, '.', dmin, '.', dpat);
    lemma_dec_value_of_digits(v.major as nat);
    lemma_dec_value_of_digits(v.minor as nat);
    lemma_dec_value_of_digits(v.patch as nat);
}

fn find_digit(s: &str, start: usize) -> (r: usize)
    requires
        start as int <= s@.len(),
    ensures
        r == first_digit_from(s@, start as int),
        start <= r <= s@.len(),
        r < s@.len() ==> is_digit(s@[r as int]),
{
    let n = s.unicode_len();
    let mut i = start;
    while i < n
        invariant
            start <= i <= n,
            n == s@.len(),
            forall|k: int| start <= k < i ==> !is_digit(#[trigger] s@[k]),
        decreases n - i,
    {
        if is_digit_exec(s.get_char(i)) {
            proof {
                lemma_first_digit_from_is(s@, start as int, i as int);
            }
            return i;
        }
        i = i + 1;
    }
    proof {
        lemma_first_digit_from_is(s@, start as int, n as int);
    }
    n
}

fn scan_run(s: &str, start: usize) -> (r: usize)
    requires
        start as int <= s@.len(),
    ensures
        r == run_end(s@, start as int),
        start <= r <= s@.len(),
        forall|k: int| start <= k < r ==> is_digit(#[trigger] s@[k]),
{
    let n = s.unicode_len();
    let mut i = start;
    while i < n
        invariant
            start <= i <= n,
            n == s@.len(),
            forall|k: int| start <= k < i ==> is_digit(#[trigger] s@[k]),
        decreases n - i,
    {
        if !is_digit_exec(s.get_char(i)) {
            proof {
                lemma_run_end_is(s@, start as int, i as int);
            }
            return i;
        }
        i = i + 1;
    }
    proof {
        lemma_run_end_is(s@, start as int, n as int);
    }
    n
}

fn group_follows_exec(s: &str, k: usize) -> (r: bool)
    requires
        k as int <= s@.len(),
    ensures
        r == group_follows(s@, k as int),
{
    let n = s.unicode_len();
    if k < n && k + 1 < n {
        is_sep_exec(s.get_char(k)) && is_digit_exec(s.get_char(k + 1))
    } else {
        false
    }
}

/// Extracts a version from free text, folded to lowercase first; attaches
/// the supplied short commit identifier. Text with no digit in it yields
/// `None`: a benign absence, not an error.
pub fn version_from_string(raw_name: &str, commit: Option<String>) -> (r: Option<
    SemanticVersion,
>)
    ensures
        match r {
            Some(v) => extract_triple(lower_seq(raw_name@)) == Some(
                ((v.major as nat), (v.minor as nat), (v.patch as nat)),
            ) && v.ident is None && v.commit == commit,
            None => extract_triple(lower_seq(raw_name@)) is None,
        },
{
    let low = lowercase(raw_name);
    let s = low.as_str();
    let n = s.unicode_len();
    let j = find_digit(s, 0);
    if j == n {
        return None;
    }
    let k = scan_run(s, j);
    let major = parse_number(s, j, k);
    let mut minor: usize = 0;
    let mut patch: usize = 0;
    if group_follows_exec(s, k) {
        let m = scan_run(s, k + 1);
        minor = parse_number(s, k + 1, m);
        if group_follows_exec(s, m) {
            let e = scan_run(s, m + 1);
            patch = parse_number(s, m + 1, e);
        }
    }
    let v = SemanticVersion::new(major, minor, patch, None, commit);
    proof {
        assert(extract_triple(s@) == Some(((major as nat), (minor as nat), (patch as nat))));
    }
    Some(v)
}

} // verus!
