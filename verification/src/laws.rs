//! The round-trip laws of the delegation pipeline, proved once for every
//! element type that honours the `SortElement` laws.

use vstd::prelude::*;
use crate::element::SortElement;
use crate::encode::{join_texts, rendered_texts, encoded_user};
use crate::decode::{decode_spec, DecodeOutcome, lemma_parse_tokens_ok, lemma_parse_tokens_count};
use crate::text::{is_ws, has_sep_at, sep_free, token_clean, trim_front, trim_back, trim_spec,
    strip_brackets, split_sep, lemma_split_sep_step, lemma_split_sep_whole};

verus! {

/// Splitting the joined text of separator-free tokens recovers the tokens.
proof fn lemma_split_join(ts: Seq<Seq<char>>)
    requires
        ts.len() > 0,
        forall|k: int| 0 <= k < ts.len() ==> sep_free(ts[k]),
    ensures
        split_sep(join_texts(ts)) == ts,
    decreases ts.len(),
{
    if ts.len() == 1 {
        lemma_split_sep_whole(ts[0]);
        assert(seq![ts[0]] =~= ts);
    } else {
        let j = join_texts(ts);
        let t0 = ts[0];
        let sep = seq![',', ' '];
        let rest = join_texts(ts.skip(1));
        assert(j == t0 + sep + rest);
        let n0 = t0.len() as int;
        assert(j.len() == n0 + 2 + rest.len());
        assert(j[n0] == ',');
        assert(j[n0 + 1] == ' ');
        assert(has_sep_at(j, n0));
        assert forall|k: int| k < n0 implies !has_sep_at(j, k) by {
            if 0 <= k {
                if k + 1 < n0 {
                    assert(j[k] == t0[k]);
                    assert(j[k + 1] == t0[k + 1]);
                    assert(!has_sep_at(t0, k));
                } else {
                    assert(j[k + 1] == ',');
                }
            }
        }
        lemma_split_sep_step(j, n0);
        assert(j.take(n0) =~= t0);
        assert(j.skip(n0 + 2) =~= rest);
        assert forall|k: int| 0 <= k < ts.skip(1).len() implies sep_free(ts.skip(1)[k]) by {
            assert(ts.skip(1)[k] == ts[k + 1]);
        }
        lemma_split_join(ts.skip(1));
        assert(seq![t0] + ts.skip(1) =~= ts);
    }
}

/// A protocol-clean token is unchanged by the per-token trim.
proof fn lemma_trim_clean(t: Seq<char>)
    requires
        token_clean(t),
    ensures
        trim_spec(t) == t,
{
    assert(!is_ws(t[0]));
    assert(!is_ws(t.last()));
    assert(trim_front(t) == t);
    assert(trim_back(t) == t);
}

/// Law: encoding a non-empty collection and decoding a reply that echoes the
/// encoded user message exactly yields the collection itself — in
/// particular, the decoded collection's textual rendering equals the
/// original's. Holds for every element type whose renderings honour the
/// `SortElement` laws; it cannot hold of the empty collection, whose encoded
/// text `[]` decodes as one empty token and is rejected.
pub proof fn lemma_encode_decode_identity<T: SortElement>(v: Seq<T>)
    requires
        v.len() > 0,
    ensures
        decode_spec::<T>(encoded_user(rendered_texts::<T>(v))) == DecodeOutcome::<T>::Values(v),
{
    let ts = rendered_texts::<T>(v);
    assert(ts.len() == v.len());
    assert forall|k: int| 0 <= k < ts.len() implies token_clean(ts[k]) by {
        assert(ts[k] == v[k].text_spec());
        v[k].lemma_text_clean();
    }
    let j = join_texts(ts);
    let e = encoded_user(ts);
    assert(e == seq!['['] + j + seq![']']);
    assert(e.len() == j.len() + 2);
    assert(e[0] == '[');
    assert(e.last() == ']');
    assert(trim_front(e) == e);
    assert(trim_back(e) == e);
    let a = e.skip(1);
    assert(a =~= j + seq![']']);
    assert(a.last() == ']');
    assert(a.drop_last() =~= j);
    assert(strip_brackets(trim_spec(e)) == j);
    lemma_split_join(ts);
    assert forall|k: int| 0 <= k < ts.len() implies T::parse_spec(trim_spec(ts[k])) == Some(
        v[k],
    ) by {
        lemma_trim_clean(ts[k]);
        v[k].lemma_text_round_trip();
    }
    lemma_parse_tokens_ok::<T>(ts, v);
}

/// Law: a reply is accepted exactly by its own content — whenever every one
/// of its tokens reconstructs, the decode succeeds and its length is the
/// reply's token count. No relation to any input collection's length is
/// required: a reply that dropped or added elements decodes without
/// complaint. This states the pipeline's permissive behaviour; it does not
/// promise the reply is sorted or complete.
pub proof fn lemma_decode_counts_reply_tokens<T: SortElement>(content: Seq<char>)
    requires
        ({
            let toks = split_sep(strip_brackets(trim_spec(content)));
            forall|k: int| 0 <= k < toks.len() ==> T::parse_spec(trim_spec(toks[k])) is Some
        }),
    ensures
        ({
            let toks = split_sep(strip_brackets(trim_spec(content)));
            decode_spec::<T>(content) matches DecodeOutcome::Values(vals) && vals.len()
                == toks.len()
        }),
{
    lemma_parse_tokens_count::<T>(split_sep(strip_brackets(trim_spec(content))));
}

} // verus!
