//! The `SortElement` capability of `i64`: a minus sign followed by the
//! magnitude's base-ten numeral for negative values, the plain numeral
//! otherwise, again proved inverse to its reconstruction.

use vstd::prelude::*;
use vstd::string::*;
use crate::element::SortElement;
use crate::text::{is_ws, has_sep_at, token_clean};
use crate::numeral::{dec_rep, dec_val, all_digits, is_digit, u64_to_text, u64_from_text,
    lemma_dec_rep_digits, lemma_dec_rep_val, lemma_dec_rep_clean};

verus! {

/// The magnitude of the most negative `i64`, the one value whose negation
/// does not fit in `i64`.
pub const I64_MIN_MAGNITUDE: u64 = 9223372036854775808;

/// The signed base-ten numeral of `n`.
pub open spec fn int_rep(n: int) -> Seq<char> {
    if n < 0 {
        seq!['-'] + dec_rep((-n) as nat)
    } else {
        dec_rep(n as nat)
    }
}

/// What text reconstructs into an `i64`: an optional leading minus sign,
/// then a non-empty all-digit string whose signed value fits.
pub open spec fn parse_i64_spec(s: Seq<char>) -> Option<i64> {
    if s.len() >= 1 && s[0] == '-' {
        let tail = s.skip(1);
        if tail.len() > 0 && all_digits(tail) && dec_val(tail) <= I64_MIN_MAGNITUDE {
            Some((-(dec_val(tail) as int)) as i64)
        } else {
            None
        }
    } else {
        if s.len() > 0 && all_digits(s) && dec_val(s) <= i64::MAX {
            Some(dec_val(s) as i64)
        } else {
            None
        }
    }
}

/// Renders `n` as its signed base-ten numeral.
pub fn i64_to_text(n: i64) -> (r: String)
    ensures
        r@ == int_rep(n as int),
{
    if n >= 0 {
        u64_to_text(n as u64)
    } else {
        let mag: u64 = if n == i64::MIN {
            I64_MIN_MAGNITUDE
        } else {
            (-n) as u64
        };
        let mut s = String::from_str("-");
        let t = u64_to_text(mag);
        s.append(t.as_str());
        proof {
            reveal_strlit("-");
            assert(mag as nat == (-(n as int)) as nat);
            assert(s@ =~= seq!['-'] + dec_rep((-(n as int)) as nat));
        }
        s
    }
}

/// Reconstructs an `i64` from text: accepts exactly an optional minus sign
/// followed by digits, when the signed value fits.
pub fn i64_from_text(s: &str) -> (r: Option<i64>)
    ensures
        r == parse_i64_spec(s@),
{
    let n: usize = s.unicode_len();
    if n >= 1 && s.get_char(0) == '-' {
        let tail = s.substring_char(1, n);
        proof {
            assert(tail@ =~= s@.skip(1));
        }
        match u64_from_text(tail) {
            Some(v) => {
                if v <= I64_MIN_MAGNITUDE {
                    let r = if v == I64_MIN_MAGNITUDE {
                        i64::MIN
                    } else {
                        -(v as i64)
                    };
                    proof {
                        assert(r as int == -(dec_val(s@.skip(1)) as int));
                    }
                    Some(r)
                } else {
                    None
                }
            },
            None => None,
        }
    } else {
        match u64_from_text(s) {
            Some(v) => {
                if v <= 9223372036854775807u64 {
                    Some(v as i64)
                } else {
                    None
                }
            },
            None => None,
        }
    }
}

/// Law: the signed decimal round trip is the identity on `i64`.
pub proof fn lemma_parse_int_rep(n: i64)
    ensures
        parse_i64_spec(int_rep(n as int)) == Some(n),
{
    if n >= 0 {
        let s = dec_rep(n as nat);
        lemma_dec_rep_digits(n as nat);
        lemma_dec_rep_val(n as nat);
        assert(is_digit(s[0]));
        assert(s[0] != '-');
    } else {
        let mag = (-(n as int)) as nat;
        let s = seq!['-'] + dec_rep(mag);
        lemma_dec_rep_digits(mag);
        lemma_dec_rep_val(mag);
        assert(s[0] == '-');
        assert(s.skip(1) =~= dec_rep(mag));
        assert(dec_val(dec_rep(mag)) == mag <= I64_MIN_MAGNITUDE);
    }
}

/// Law: a signed numeral is protocol-clean.
pub proof fn lemma_int_rep_clean(n: i64)
    ensures
        token_clean(int_rep(n as int)),
{
    if n >= 0 {
        lemma_dec_rep_clean(n as nat);
    } else {
        let mag = (-(n as int)) as nat;
        lemma_dec_rep_clean(mag);
        lemma_dec_rep_digits(mag);
        let s = seq!['-'] + dec_rep(mag);
        assert(s[0] == '-');
        assert(s.last() == dec_rep(mag).last());
        assert(!is_ws(dec_rep(mag).last())) by {
            assert(dec_rep(mag).last() == dec_rep(mag)[dec_rep(mag).len() - 1]);
        }
        assert forall|i: int| !has_sep_at(s, i) by {
            if 1 <= i && i + 2 <= s.len() {
                assert(s[i] == dec_rep(mag)[i - 1]);
                assert(is_digit(dec_rep(mag)[i - 1]));
            } else if i == 0 && s.len() >= 2 {
                assert(s[0] == '-');
            }
        }
    }
}

impl SortElement for i64 {
    open spec fn text_spec(&self) -> Seq<char> {
        int_rep(*self as int)
    }

    open spec fn parse_spec(s: Seq<char>) -> Option<i64> {
        parse_i64_spec(s)
    }

    fn to_text(&self) -> (r: String) {
        i64_to_text(*self)
    }

    fn from_text(s: &str) -> (r: Option<i64>) {
        i64_from_text(s)
    }

    proof fn lemma_text_round_trip(&self) {
        lemma_parse_int_rep(*self);
    }

    proof fn lemma_text_clean(&self) {
        lemma_int_rep_clean(*self);
    }
}

} // verus!
