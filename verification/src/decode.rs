//! The reply decoder: trims the reply text, strips one bracket pair, splits
//! on the exact separator `", "` and reconstructs each token. The first
//! token that fails reconstruction fails the whole decode, carrying that raw
//! token; partial results are never returned. Deliberately absent: any check
//! that the decoded collection has the input's length or is actually sorted
//! — the reply is trusted once every token parses.

use vstd::prelude::*;
use vstd::string::*;
use crate::element::SortElement;
use crate::errors::VibesortError;
use crate::text::{trim_spec, strip_brackets, split_sep, views_of, trim_str, strip_brackets_str,
    split_tokens};

verus! {

/// What decoding a reply text yields: the reconstructed values, or the first
/// raw token that failed reconstruction.
pub enum DecodeOutcome<T> {
    Values(Seq<T>),
    BadToken(Seq<char>),
}

/// Reconstructs each token in order, trimming it first; stops at the first
/// failure, keeping the raw (untrimmed) token for diagnostics.
pub open spec fn parse_tokens<T: SortElement>(toks: Seq<Seq<char>>) -> DecodeOutcome<T>
    decreases toks.len(),
{
    if toks.len() == 0 {
        DecodeOutcome::Values(Seq::empty())
    } else {
        match T::parse_spec(trim_spec(toks[0])) {
            None => DecodeOutcome::BadToken(toks[0]),
            Some(v) => match parse_tokens::<T>(toks.skip(1)) {
                DecodeOutcome::Values(rest) => DecodeOutcome::Values(seq![v] + rest),
                DecodeOutcome::BadToken(t) => DecodeOutcome::BadToken(t),
            },
        }
    }
}

/// The whole decode of a reply content text: trim, strip one bracket pair,
/// split on `", "`, reconstruct every token.
pub open spec fn decode_spec<T: SortElement>(content: Seq<char>) -> DecodeOutcome<T> {
    parse_tokens::<T>(split_sep(strip_brackets(trim_spec(content))))
}

/// When every token reconstructs, the decode succeeds with exactly those
/// values.
pub proof fn lemma_parse_tokens_ok<T: SortElement>(toks: Seq<Seq<char>>, vals: Seq<T>)
    requires
        toks.len() == vals.len(),
        forall|k: int| 0 <= k < toks.len() ==> T::parse_spec(trim_spec(toks[k])) == Some(vals[k]),
    ensures
        parse_tokens::<T>(toks) == DecodeOutcome::<T>::Values(vals),
    decreases toks.len(),
{
    if toks.len() == 0 {
        assert(vals =~= Seq::<T>::empty());
    } else {
        assert forall|k: int| 0 <= k < toks.skip(1).len() implies T::parse_spec(
            trim_spec(toks.skip(1)[k]),
        ) == Some(vals.skip(1)[k]) by {
            assert(toks.skip(1)[k] == toks[k + 1]);
            assert(vals.skip(1)[k] == vals[k + 1]);
        }
        lemma_parse_tokens_ok::<T>(toks.skip(1), vals.skip(1));
        assert(T::parse_spec(trim_spec(toks[0])) == Some(vals[0]));
        assert(seq![vals[0]] + vals.skip(1) =~= vals);
    }
}

/// The first token that fails reconstruction decides the decode.
pub proof fn lemma_parse_tokens_bad<T: SortElement>(toks: Seq<Seq<char>>, j: int)
    requires
        0 <= j < toks.len(),
        forall|k: int| 0 <= k < j ==> T::parse_spec(trim_spec(toks[k])) is Some,
        T::parse_spec(trim_spec(toks[j])) is None,
    ensures
        parse_tokens::<T>(toks) == DecodeOutcome::<T>::BadToken(toks[j]),
    decreases j,
{
    if j == 0 {
    } else {
        assert forall|k: int| 0 <= k < j - 1 implies T::parse_spec(
            trim_spec(toks.skip(1)[k]),
        ) is Some by {
            assert(toks.skip(1)[k] == toks[k + 1]);
        }
        assert(toks.skip(1)[j - 1] == toks[j]);
        lemma_parse_tokens_bad::<T>(toks.skip(1), j - 1);
        assert(T::parse_spec(trim_spec(toks[0])) is Some);
    }
}

/// A reply is accepted whenever every one of its own tokens reconstructs:
/// the decoded length is the reply's token count, with no relation to any
/// input's length. A reply that dropped or added elements decodes without
/// complaint — the permissive behaviour of the pipeline, stated, not fixed.
pub proof fn lemma_parse_tokens_count<T: SortElement>(toks: Seq<Seq<char>>)
    requires
        forall|k: int| 0 <= k < toks.len() ==> T::parse_spec(trim_spec(toks[k])) is Some,
    ensures
        parse_tokens::<T>(toks) matches DecodeOutcome::Values(vals) && vals.len() == toks.len(),
    decreases toks.len(),
{
    if toks.len() == 0 {
    } else {
        assert forall|k: int| 0 <= k < toks.skip(1).len() implies T::parse_spec(
            trim_spec(toks.skip(1)[k]),
        ) is Some by {
            assert(toks.skip(1)[k] == toks[k + 1]);
        }
        lemma_parse_tokens_count::<T>(toks.skip(1));
        assert(T::parse_spec(trim_spec(toks[0])) is Some);
    }
}

/// Decodes a reply content text into a collection. Succeeds exactly when
/// every token of the reply reconstructs; otherwise fails with the first
/// offending raw token and returns nothing partial.
pub fn decode_content<T: SortElement>(content: &str) -> (r: Result<Vec<T>, VibesortError>)
    ensures
        (match decode_spec::<T>(content@) {
            DecodeOutcome::Values(vals) => r matches Ok(out) && out@ == vals,
            DecodeOutcome::BadToken(t) => r matches Err(VibesortError::ParseError(tok)) && tok@
                == t,
        }),
{
    let trimmed = trim_str(content);
    let stripped = strip_brackets_str(trimmed);
    let tokens = split_tokens(stripped);
    let ghost toks = views_of(tokens@);
    let mut out: Vec<T> = Vec::new();
    let mut j: usize = 0;
    while j < tokens.len()
        invariant
            j <= tokens@.len(),
            toks == views_of(tokens@),
            toks == split_sep(strip_brackets(trim_spec(content@))),
            toks.len() == tokens@.len(),
            out@.len() == j,
            forall|k: int| 0 <= k < j ==> T::parse_spec(trim_spec(toks[k])) == Some(out@[k]),
        decreases tokens@.len() - j,
    {
        proof {
            assert(toks[j as int] == tokens@[j as int]@);
        }
        let tok_trimmed = trim_str(tokens[j].as_str());
        match T::from_text(tok_trimmed) {
            Some(v) => {
                out.push(v);
            },
            None => {
                proof {
                    assert forall|k: int| 0 <= k < j implies T::parse_spec(
                        trim_spec(toks[k]),
                    ) is Some by {
                        assert(T::parse_spec(trim_spec(toks[k])) == Some(out@[k]));
                    }
                    lemma_parse_tokens_bad::<T>(toks, j as int);
                }
                return Err(VibesortError::ParseError(tokens[j].clone()));
            },
        }
        j = j + 1;
    }
    proof {
        lemma_parse_tokens_ok::<T>(toks, out@);
    }
    Ok(out)
}

/// Decodes the extracted reply content, or reports the missing content
/// field: `None` — the reply had no textual content — becomes
/// `InvalidResponse`; text is decoded like any reply content.
pub fn decode_reply<T: SortElement>(content: Option<&str>) -> (r: Result<Vec<T>, VibesortError>)
    ensures
        content is None ==> r matches Err(VibesortError::InvalidResponse),
        content matches Some(c) ==> (match decode_spec::<T>(c@) {
            DecodeOutcome::Values(vals) => r matches Ok(out) && out@ == vals,
            DecodeOutcome::BadToken(t) => r matches Err(VibesortError::ParseError(tok)) && tok@
                == t,
        }),
{
    match content {
        None => Err(VibesortError::InvalidResponse),
        Some(c) => decode_content::<T>(c),
    }
}

} // verus!
