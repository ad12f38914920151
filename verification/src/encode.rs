//! The prompt encoder: turns a collection into the structured request the
//! remote endpoint expects. The user message is the elements' renderings
//! joined with `", "` and wrapped in one bracket pair; element text is not
//! escaped, so a rendering containing the separator would misparse
//! downstream — a known weakness of the protocol, kept as-is.

use vstd::prelude::*;
use vstd::string::*;
use crate::element::SortElement;

verus! {

/// The structured request sent to the remote service. The model identifier,
/// streaming flag, token budget and decoding temperature are configuration
/// constants, not per-call inputs; the temperature is held in tenths so that
/// the payload stays in integers (the wire value is `temperature_tenths`
/// over ten).
pub struct PromptPayload {
    pub model: String,
    pub stream: bool,
    pub max_tokens: u64,
    pub temperature_tenths: u64,
    pub system_message: String,
    pub user_message: String,
}

/// Token texts joined with the separator `", "`.
pub open spec fn join_texts(ts: Seq<Seq<char>>) -> Seq<char>
    decreases ts.len(),
{
    if ts.len() == 0 {
        Seq::empty()
    } else if ts.len() == 1 {
        ts[0]
    } else {
        ts[0] + seq![',', ' '] + join_texts(ts.skip(1))
    }
}

/// The renderings of the elements of `v`, in order.
pub open spec fn rendered_texts<T: SortElement>(v: Seq<T>) -> Seq<Seq<char>> {
    v.map_values(|e: T| e.text_spec())
}

/// The user message body: joined renderings wrapped in one bracket pair.
pub open spec fn encoded_user(ts: Seq<Seq<char>>) -> Seq<char> {
    seq!['['] + join_texts(ts) + seq![']']
}

/// Appending one more token extends the joined text by a separator and the
/// token.
pub proof fn lemma_join_push(ts: Seq<Seq<char>>, t: Seq<char>)
    requires
        ts.len() >= 1,
    ensures
        join_texts(ts.push(t)) == join_texts(ts) + seq![',', ' '] + t,
    decreases ts.len(),
{
    let p = ts.push(t);
    let sep = seq![',', ' '];
    assert(p[0] == ts[0]);
    assert(p.len() >= 2);
    assert(join_texts(p) == p[0] + sep + join_texts(p.skip(1)));
    if ts.len() == 1 {
        assert(p.skip(1) =~= seq![t]);
        assert(join_texts(seq![t]) == t);
        assert(join_texts(ts) == ts[0]);
    } else {
        assert(p.skip(1) =~= ts.skip(1).push(t));
        lemma_join_push(ts.skip(1), t);
        assert(join_texts(ts) == ts[0] + sep + join_texts(ts.skip(1)));
        assert(ts[0] + sep + (join_texts(ts.skip(1)) + sep + t) =~= (ts[0] + sep + join_texts(
            ts.skip(1),
        )) + sep + t);
    }
}

/// Builds the user message text for a collection: renderings joined with
/// `", "`, wrapped in square brackets.
pub fn encode_user_message<T: SortElement>(items: &Vec<T>) -> (r: String)
    ensures
        r@ == encoded_user(rendered_texts::<T>(items@)),
{
    let ghost ts = rendered_texts::<T>(items@);
    let mut s = String::from_str("[");
    proof {
        reveal_strlit("[");
        assert(s@ =~= seq!['[']);
        assert(ts.take(0) =~= Seq::<Seq<char>>::empty());
        assert(s@ =~= seq!['['] + join_texts(ts.take(0)));
    }
    let mut i: usize = 0;
    while i < items.len()
        invariant
            i <= items.len(),
            ts == rendered_texts::<T>(items@),
            ts.len() == items@.len(),
            s@ == seq!['['] + join_texts(ts.take(i as int)),
        decreases items.len() - i,
    {
        if i > 0 {
            s.append(", ");
            proof {
                reveal_strlit(", ");
                assert(", "@ =~= seq![',', ' ']);
            }
        }
        let t = items[i].to_text();
        s.append(t.as_str());
        proof {
            assert(ts[i as int] == items@[i as int].text_spec());
            assert(ts.take(i + 1) =~= ts.take(i as int).push(ts[i as int]));
            if i == 0 {
                assert(ts.take(1) =~= seq![ts[0]]);
                assert(join_texts(seq![ts[0]]) == ts[0]);
                assert(s@ =~= seq!['['] + join_texts(ts.take(1)));
            } else {
                let tok = ts[i as int];
                let joined = join_texts(ts.take(i as int));
                lemma_join_push(ts.take(i as int), tok);
                assert(seq!['['] + joined + seq![',', ' '] + tok =~= seq!['['] + (joined + seq![
                    ',',
                    ' ',
                ] + tok));
            }
        }
        i = i + 1;
    }
    s.append("]");
    proof {
        reveal_strlit("]");
        assert(ts.take(ts.len() as int) =~= ts);
        assert(s@ =~= seq!['['] + join_texts(ts) + seq![']']);
    }
    s
}

/// Builds the full request payload for a collection: fixed model identifier,
/// no streaming, a 128-token reply budget, low-temperature decoding, the
/// fixed reply-format instruction, and the encoded collection as user
/// message.
pub fn encode_prompt<T: SortElement>(items: &Vec<T>) -> (r: PromptPayload)
    ensures
        r.model@ == "llama-4-maverick-17b-128e-instruct"@,
        !r.stream,
        r.max_tokens == 128,
        r.temperature_tenths == 1,
        r.system_message@ == "Return only sorted array in format [1, 2, 3]. No text."@,
        r.user_message@ == encoded_user(rendered_texts::<T>(items@)),
{
    PromptPayload {
        model: String::from_str("llama-4-maverick-17b-128e-instruct"),
        stream: false,
        max_tokens: 128,
        temperature_tenths: 1,
        system_message: String::from_str(
            "Return only sorted array in format [1, 2, 3]. No text.",
        ),
        user_message: encode_user_message(items),
    }
}

} // verus!
