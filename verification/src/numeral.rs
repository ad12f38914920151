//! A verified decimal text codec for unsigned integers, and with it the
//! `SortElement` capability of `u64`: rendering is the usual base-ten
//! numeral, reconstruction accepts exactly the digit strings whose value
//! fits, and the two are proved inverse.

use vstd::prelude::*;
use vstd::string::*;
use crate::element::SortElement;
use crate::text::{is_ws, has_sep_at, token_clean};

verus! {

/// The digit character for a value below ten.
pub open spec fn digit_char(d: nat) -> char {
    if d == 0 {
        '0'
    } else if d == 1 {
        '1'
    } else if d == 2 {
        '2'
    } else if d == 3 {
        '3'
    } else if d == 4 {
        '4'
    } else if d == 5 {
        '5'
    } else if d == 6 {
        '6'
    } else if d == 7 {
        '7'
    } else if d == 8 {
        '8'
    } else {
        '9'
    }
}

/// Whether `c` is a decimal digit.
pub open spec fn is_digit(c: char) -> bool {
    ('0' as u32) <= (c as u32) && (c as u32) <= ('9' as u32)
}

/// The numeric value of a digit character.
pub open spec fn digit_of(c: char) -> nat {
    ((c as int) - ('0' as int)) as nat
}

/// The base-ten numeral of `n`: most significant digit first, no leading
/// zeros, no sign.
pub open spec fn dec_rep(n: nat) -> Seq<char>
    decreases n,
{
    if n < 10 {
        seq![digit_char(n)]
    } else {
        dec_rep(n / 10) + seq![digit_char(n % 10)]
    }
}

/// Every character of `s` is a decimal digit.
pub open spec fn all_digits(s: Seq<char>) -> bool {
    forall|i: int| 0 <= i < s.len() ==> is_digit(s[i])
}

/// The numeric value of a digit string, most significant digit first.
pub open spec fn dec_val(s: Seq<char>) -> nat
    decreases s.len(),
{
    if s.len() == 0 {
        0
    } else {
        dec_val(s.drop_last()) * 10 + digit_of(s.last())
    }
}

/// What text reconstructs into a `u64`: a non-empty all-digit string whose
/// value fits. No sign, no surrounding noise.
pub open spec fn parse_u64_spec(s: Seq<char>) -> Option<u64> {
    if s.len() > 0 && all_digits(s) && dec_val(s) <= u64::MAX {
        Some(dec_val(s) as u64)
    } else {
        None
    }
}

/// The digit character of a small value is a digit with that value.
pub proof fn lemma_digit_char_props(d: nat)
    requires
        d < 10,
    ensures
        is_digit(digit_char(d)),
        digit_of(digit_char(d)) == d,
{
}

/// A numeral is a non-empty digit string.
pub proof fn lemma_dec_rep_digits(n: nat)
    ensures
        dec_rep(n).len() > 0,
        all_digits(dec_rep(n)),
    decreases n,
{
    if n < 10 {
        lemma_digit_char_props(n);
    } else {
        lemma_dec_rep_digits(n / 10);
        lemma_digit_char_props(n % 10);
        let s = dec_rep(n);
        assert forall|i: int| 0 <= i < s.len() implies is_digit(s[i]) by {
            if i < dec_rep(n / 10).len() {
                assert(s[i] == dec_rep(n / 10)[i]);
            } else {
                assert(s[i] == digit_char(n % 10));
            }
        }
    }
}

/// A numeral evaluates back to the number it renders.
pub proof fn lemma_dec_rep_val(n: nat)
    ensures
        dec_val(dec_rep(n)) == n,
    decreases n,
{
    if n < 10 {
        let s = seq![digit_char(n)];
        assert(s.drop_last() =~= Seq::<char>::empty());
        assert(s.last() == digit_char(n));
        lemma_digit_char_props(n);
        assert(dec_val(s) == dec_val(Seq::<char>::empty()) * 10 + digit_of(digit_char(n)));
    } else {
        lemma_dec_rep_val(n / 10);
        lemma_digit_char_props(n % 10);
        let s = dec_rep(n / 10) + seq![digit_char(n % 10)];
        assert(s.drop_last() =~= dec_rep(n / 10));
        assert(s.last() == digit_char(n % 10));
        assert(dec_val(s) == dec_val(dec_rep(n / 10)) * 10 + digit_of(digit_char(n % 10)));
        assert(n / 10 * 10 + n % 10 == n) by {
            vstd::arithmetic::div_mod::lemma_fundamental_div_mod(n as int, 10);
        }
    }
}

/// A numeral is protocol-clean: digits are never separators or whitespace.
pub proof fn lemma_dec_rep_clean(n: nat)
    ensures
        token_clean(dec_rep(n)),
{
    lemma_dec_rep_digits(n);
    let s = dec_rep(n);
    assert forall|i: int| !has_sep_at(s, i) by {
        if 0 <= i && i + 2 <= s.len() {
            assert(is_digit(s[i]));
        }
    }
    assert(is_digit(s[0]));
    assert(is_digit(s[s.len() - 1]));
}

/// Extending a digit string can only increase its value.
pub proof fn lemma_dec_val_prefix(s: Seq<char>, j: int)
    requires
        0 <= j <= s.len(),
    ensures
        dec_val(s) >= dec_val(s.take(j)),
    decreases s.len() - j,
{
    if j == s.len() {
        assert(s.take(j) =~= s);
    } else {
        assert(s.take(j + 1).drop_last() =~= s.take(j));
        assert(s.take(j + 1).last() == s[j]);
        lemma_dec_val_prefix(s, j + 1);
    }
}

/// The digit string of a small value, as borrowed text.
fn digit_str(d: u64) -> (r: &'static str)
    requires
        d < 10,
    ensures
        r@ == seq![digit_char(d as nat)],
{
    proof {
        reveal_strlit("0");
        reveal_strlit("1");
        reveal_strlit("2");
        reveal_strlit("3");
        reveal_strlit("4");
        reveal_strlit("5");
        reveal_strlit("6");
        reveal_strlit("7");
        reveal_strlit("8");
        reveal_strlit("9");
    }
    let r = if d == 0 {
        "0"
    } else if d == 1 {
        "1"
    } else if d == 2 {
        "2"
    } else if d == 3 {
        "3"
    } else if d == 4 {
        "4"
    } else if d == 5 {
        "5"
    } else if d == 6 {
        "6"
    } else if d == 7 {
        "7"
    } else if d == 8 {
        "8"
    } else {
        "9"
    };
    proof {
        assert(r@ =~= seq![digit_char(d as nat)]);
    }
    r
}

/// Renders `n` as its base-ten numeral.
pub fn u64_to_text(n: u64) -> (r: String)
    ensures
        r@ == dec_rep(n as nat),
    decreases n,
{
    if n < 10 {
        String::from_str(digit_str(n))
    } else {
        let mut s = u64_to_text(n / 10);
        s.append(digit_str(n % 10));
        s
    }
}

/// Reconstructs a `u64` from text: accepts exactly non-empty all-digit
/// strings whose value fits.
pub fn u64_from_text(s: &str) -> (r: Option<u64>)
    ensures
        r == parse_u64_spec(s@),
{
    let n: usize = s.unicode_len();
    if n == 0 {
        return None;
    }
    let mut acc: u64 = 0;
    let mut i: usize = 0;
    while i < n
        invariant
            n == s@.len(),
            i <= n,
            all_digits(s@.take(i as int)),
            acc == dec_val(s@.take(i as int)),
        decreases n - i,
    {
        let c = s.get_char(i);
        let u: u32 = c as u32;
        if u < 48 || u > 57 {
            proof {
                assert(('0' as u32) == 48 && ('9' as u32) == 57);
                assert(!is_digit(s@[i as int]));
            }
            return None;
        }
        let d: u64 = (u - 48) as u64;
        proof {
            assert(s@.take(i + 1).drop_last() =~= s@.take(i as int));
            assert(s@.take(i + 1).last() == s@[i as int]);
            assert(d == digit_of(s@[i as int]));
            assert(all_digits(s@.take(i + 1)));
        }
        if acc > (u64::MAX - d) / 10 {
            proof {
                let m: int = (u64::MAX - d) as int;
                assert(m / 10 * 10 + m % 10 == m);
                assert(acc * 10 + d > u64::MAX);
                assert(dec_val(s@.take(i + 1)) > u64::MAX);
                lemma_dec_val_prefix(s@, i + 1);
            }
            return None;
        }
        proof {
            let m: int = (u64::MAX - d) as int;
            assert(m / 10 * 10 + m % 10 == m);
            assert(acc * 10 + d <= u64::MAX);
        }
        acc = acc * 10 + d;
        i = i + 1;
    }
    proof {
        assert(s@.take(n as int) =~= s@);
    }
    Some(acc)
}

/// Law: the decimal round trip is the identity on `u64`.
pub proof fn lemma_parse_dec_rep(n: u64)
    ensures
        parse_u64_spec(dec_rep(n as nat)) == Some(n),
{
    lemma_dec_rep_digits(n as nat);
    lemma_dec_rep_val(n as nat);
}

impl SortElement for u64 {
    open spec fn text_spec(&self) -> Seq<char> {
        dec_rep(*self as nat)
    }

    open spec fn parse_spec(s: Seq<char>) -> Option<u64> {
        parse_u64_spec(s)
    }

    fn to_text(&self) -> (r: String) {
        u64_to_text(*self)
    }

    fn from_text(s: &str) -> (r: Option<u64>) {
        u64_from_text(s)
    }

    proof fn lemma_text_round_trip(&self) {
        lemma_parse_dec_rep(*self);
    }

    proof fn lemma_text_clean(&self) {
        lemma_dec_rep_clean(*self as nat);
    }
}

} // verus!
