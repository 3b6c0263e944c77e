//! Decimal numerals for counters.
//!
//! The notifier prints link counts in base ten. The numeral of a number is
//! pinned down by a specification function, and the executable formatter is
//! proved to produce exactly that sequence of digit characters.

use vstd::prelude::*;

verus! {

/// The digit character for a value below ten.
pub open spec fn digit_char(d: int) -> char {
    if d == 0 {
        '0'
    } else if d == 1 {
        '1'
    } else if d == 2 {
        '2'
    } else if d == 3 {
        '3'
    } else if d == 4 {
        '4'
    } else if d == 5 {
        '5'
    } else if d == 6 {
        '6'
    } else if d == 7 {
        '7'
    } else if d == 8 {
        '8'
    } else {
        '9'
    }
}

/// The decimal numeral of `n`, most significant digit first, with no
/// leading zeros (the numeral of zero is the single digit zero).
pub open spec fn dec_str(n: nat) -> Seq<char>
    decreases n,
{
    if n < 10 {
        seq![digit_char(n as int)]
    } else {
        dec_str(n / 10) + seq![digit_char((n % 10) as int)]
    }
}

/// A numeral is never empty.
pub proof fn lemma_dec_str_len(n: nat)
    ensures
        dec_str(n).len() >= 1,
    decreases n,
{
    if n >= 10 {
        lemma_dec_str_len(n / 10);
    }
}

/// Every character of a numeral is a digit.
pub open spec fn is_digit_char(c: char) -> bool {
    c == '0' || c == '1' || c == '2' || c == '3' || c == '4' || c == '5' || c == '6' || c == '7'
        || c == '8' || c == '9'
}

/// A numeral holds digit characters and nothing else.
pub proof fn lemma_dec_str_digits(n: nat)
    ensures
        forall|i: int| 0 <= i < dec_str(n).len() ==> is_digit_char(#[trigger] dec_str(n)[i]),
    decreases n,
{
    if n < 10 {
        assert(dec_str(n)[0] == digit_char(n as int));
    } else {
        lemma_dec_str_digits(n / 10);
        assert(forall|i: int|
            0 <= i < dec_str(n / 10).len() ==> #[trigger] dec_str(n)[i] == dec_str(n / 10)[i]);
        assert(dec_str(n)[dec_str(n).len() - 1] == digit_char((n % 10) as int));
    }
}

/// A number below ten has one digit; from ten on, the numeral is longer.
pub proof fn lemma_dec_str_len_monotone(n: nat)
    ensures
        n < 10 ==> dec_str(n).len() == 1,
        n >= 10 ==> dec_str(n).len() >= 2,
{
    if n >= 10 {
        lemma_dec_str_len(n / 10);
    }
}

/// Different numbers have different numerals.
pub proof fn lemma_dec_str_injective(a: nat, b: nat)
    requires
        dec_str(a) == dec_str(b),
    ensures
        a == b,
    decreases a,
{
    if a < 10 && b < 10 {
        assert(dec_str(a)[0] == digit_char(a as int));
        assert(dec_str(b)[0] == digit_char(b as int));
    } else if a < 10 {
        lemma_dec_str_len_monotone(a);
        lemma_dec_str_len_monotone(b);
    } else if b < 10 {
        lemma_dec_str_len_monotone(a);
        lemma_dec_str_len_monotone(b);
    } else {
        let la = dec_str(a / 10);
        let lb = dec_str(b / 10);
        lemma_dec_str_len(a / 10);
        lemma_dec_str_len(b / 10);
        assert(dec_str(a).last() == digit_char((a % 10) as int));
        assert(dec_str(b).last() == digit_char((b % 10) as int));
        assert(a % 10 == b % 10);
        assert(dec_str(a).len() == la.len() + 1 && dec_str(b).len() == lb.len() + 1);
        assert(la =~= lb) by {
            assert(forall|i: int| 0 <= i < la.len() ==> #[trigger] la[i] == dec_str(a)[i]);
            assert(forall|i: int| 0 <= i < lb.len() ==> #[trigger] lb[i] == dec_str(b)[i]);
        }
        lemma_dec_str_injective(a / 10, b / 10);
    }
}

/// The single-character string for a digit value.
fn digit_literal(d: u64) -> (s: &'static str)
    requires
        d < 10,
    ensures
        s@ == seq![digit_char(d as int)],
{
    proof {
        reveal_strlit("0");
        reveal_strlit("1");
        reveal_strlit("2");
        reveal_strlit("3");
        reveal_strlit("4");
        reveal_strlit("5");
        reveal_strlit("6");
        reveal_strlit("7");
        reveal_strlit("8");
        reveal_strlit("9");
    }
    let s = if d == 0 {
        "0"
    } else if d == 1 {
        "1"
    } else if d == 2 {
        "2"
    } else if d == 3 {
        "3"
    } else if d == 4 {
        "4"
    } else if d == 5 {
        "5"
    } else if d == 6 {
        "6"
    } else if d == 7 {
        "7"
    } else if d == 8 {
        "8"
    } else {
        "9"
    };
    proof {
        assert(s@ =~= seq![digit_char(d as int)]);
    }
    s
}

/// Formats `n` in base ten, producing exactly its decimal numeral.
pub fn u64_to_dec(n: u64) -> (s: String)
    ensures
        s@ == dec_str(n as nat),
    decreases n,
{
    if n < 10 {
        let mut s = String::new();
        s.append(digit_literal(n));
        proof {
            assert(s@ =~= dec_str(n as nat));
        }
        s
    } else {
        let mut s = u64_to_dec(n / 10);
        s.append(digit_literal(n % 10));
        proof {
            assert(s@ =~= dec_str(n as nat));
        }
        s
    }
}

} // verus!
