//! Decimal rendering and parsing of the numeric version components.

use vstd::prelude::*;
use crate::chars::{is_digit, digit_val, push_char};

verus! {

/// The ASCII digit character for a value below ten.
pub open spec fn digit_char(n: nat) -> char
    recommends
        n < 10,
{
    if n == 0 {
        '0'
    } else if n == 1 {
        '1'
    } else if n == 2 {
        '2'
    } else if n == 3 {
        '3'
    } else if n == 4 {
        '4'
    } else if n == 5 {
        '5'
    } else if n == 6 {
        '6'
    } else if n == 7 {
        '7'
    } else if n == 8 {
        '8'
    } else {
        '9'
    }
}

/// The canonical decimal digit string of a number (no leading zeros, one
/// digit at least).
pub open spec fn dec_digits(n: nat) -> Seq<char>
    decreases n,
{
    if n < 10 {
        seq![digit_char(n)]
    } else {
        dec_digits(n / 10).push(digit_char(n % 10))
    }
}

/// The number a digit string denotes, read left to right.
pub open spec fn dec_value(s: Seq<char>) -> nat
    decreases s.len(),
{
    if s.len() == 0 {
        0
    } else {
        dec_value(s.drop_last()) * 10 + digit_val(s.last())
    }
}

/// The tolerant reading of a digit run: a value too large for the machine
/// word collapses to zero, as an unparseable number would.
pub open spec fn capped(n: nat) -> nat {
    if n > usize::MAX as nat {
        0
    } else {
        n
    }
}

pub proof fn lemma_digit_char_val(n: nat)
    requires
        n < 10,
    ensures
        is_digit(digit_char(n)),
        digit_val(digit_char(n)) == n,
{
}

/// Every character of a decimal rendering is a digit.
pub proof fn lemma_dec_digits_are_digits(n: nat)
    ensures
        dec_digits(n).len() >= 1,
        forall|i: int| 0 <= i < dec_digits(n).len() ==> is_digit(#[trigger] dec_digits(n)[i]),
    decreases n,
{
    if n < 10 {
        lemma_digit_char_val(n);
    } else {
        lemma_dec_digits_are_digits(n / 10);
        lemma_digit_char_val(n % 10);
        assert forall|i: int| 0 <= i < dec_digits(n).len() implies is_digit(
            #[trigger] dec_digits(n)[i],
        ) by {
            if i < dec_digits(n / 10).len() {
                assert(dec_digits(n)[i] == dec_digits(n / 10)[i]);
            } else {
                assert(dec_digits(n)[i] == digit_char(n % 10));
            }
        }
    }
}

/// Reading back a decimal rendering yields the number it came from.
pub proof fn lemma_dec_value_of_digits(n: nat)
    ensures
        dec_value(dec_digits(n)) == n,
    decreases n,
{
    if n < 10 {
        lemma_digit_char_val(n);
        assert(dec_digits(n).drop_last() =~= Seq::<char>::empty());
        assert(dec_value(Seq::<char>::empty()) == 0);
        assert(dec_digits(n).last() == digit_char(n));
        assert(dec_value(dec_digits(n)) == 0 * 10 + digit_val(digit_char(n)));
    } else {
        lemma_dec_value_of_digits(n / 10);
        lemma_digit_char_val(n % 10);
        assert(dec_digits(n).drop_last() =~= dec_digits(n / 10));
        assert(dec_digits(n).last() == digit_char(n % 10));
        assert(dec_value(dec_digits(n)) == n / 10 * 10 + n % 10);
        assert(n / 10 * 10 + n % 10 == n) by (nonlinear_arith);
    }
}

fn digit_char_exec(n: usize) -> (c: char)
    requires
        n < 10,
    ensures
        c == digit_char(n as nat),
{
    if n == 0 {
        '0'
    } else if n == 1 {
        '1'
    } else if n == 2 {
        '2'
    } else if n == 3 {
        '3'
    } else if n == 4 {
        '4'
    } else if n == 5 {
        '5'
    } else if n == 6 {
        '6'
    } else if n == 7 {
        '7'
    } else if n == 8 {
        '8'
    } else {
        '9'
    }
}

/// Renders a number as its canonical decimal digit string.
pub fn render_number(n: usize) -> (s: String)
    ensures
        s@ == dec_digits(n as nat),
    decreases n,
{
    if n < 10 {
        let mut s = String::new();
        push_char(&mut s, digit_char_exec(n));
        proof {
            assert(s@ =~= dec_digits(n as nat));
        }
        s
    } else {
        let mut s = render_number(n / 10);
        push_char(&mut s, digit_char_exec(n % 10));
        s
    }
}

/// Reads the digit run `s[from..to]` as a number; a run whose value does not
/// fit the machine word reads as zero.
pub fn parse_number(s: &str, from: usize, to: usize) -> (r: usize)
    requires
        from <= to <= s@.len(),
        forall|i: int| from <= i < to ==> is_digit(#[trigger] s@[i]),
    ensures
        r as nat == capped(dec_value(s@.subrange(from as int, to as int))),
{
    let mut acc: usize = 0;
    let mut ok: bool = true;
    let mut i: usize = from;
    while i < to
        invariant
            from <= i <= to <= s@.len(),
            forall|k: int| from <= k < to ==> is_digit(#[trigger] s@[k]),
            ok ==> acc as nat == dec_value(s@.subrange(from as int, i as int)),
            !ok ==> dec_value(s@.subrange(from as int, i as int)) > usize::MAX as nat,
        decreases to - i,
    {
        let c = s.get_char(i);
        let d: usize = ((c as u32) - 48) as usize;
        proof {
            assert(is_digit(s@[i as int]));
            assert(d == digit_val(s@[i as int]));
            let pre = s@.subrange(from as int, i as int);
            let post = s@.subrange(from as int, i + 1);
            assert(post.drop_last() =~= pre);
            assert(post.last() == s@[i as int]);
        }
        let ghost pre_val = dec_value(s@.subrange(from as int, i as int));
        let ghost post_val = dec_value(s@.subrange(from as int, i + 1));
        proof {
            assert(post_val == pre_val * 10 + digit_val(s@[i as int]));
        }
        if ok {
            match acc.checked_mul(10) {
                Some(m) => match m.checked_add(d) {
                    Some(a) => {
                        acc = a;
                    },
                    None => {
                        ok = false;
                    },
                },
                None => {
                    proof {
                        assert(post_val >= pre_val * 10) by (nonlinear_arith)
                            requires
                                post_val == pre_val * 10 + digit_val(s@[i as int]),
                        ;
                    }
                    ok = false;
                },
            }
        } else {
            proof {
                assert(post_val > usize::MAX as nat) by (nonlinear_arith)
                    requires
                        post_val == pre_val * 10 + digit_val(s@[i as int]),
                        pre_val > usize::MAX as nat,
                ;
            }
        }
        i = i + 1;
    }
    if ok {
        acc
    } else {
        0
    }
}

} // verus!
