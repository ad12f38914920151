//! The textual wire protocol shared by the prompt encoder and the reply
//! decoder: ASCII whitespace trimming, stripping of one bracket pair, and
//! splitting on the exact two-character separator `", "`. The decoder trusts
//! this exact delimiter; a reply using any other spelling misparses, by
//! design.

use vstd::prelude::*;
use vstd::string::*;

verus! {

/// The whitespace characters the reply trim removes.
pub open spec fn is_ws(c: char) -> bool {
    c == ' ' || c == '\t' || c == '\n' || c == '\r'
}

/// The element separator `", "` starts at position `i` of `s`.
pub open spec fn has_sep_at(s: Seq<char>, i: int) -> bool {
    0 <= i && i + 2 <= s.len() && s[i] == ',' && s[i + 1] == ' '
}

/// No occurrence of the separator anywhere in `s`.
pub open spec fn sep_free(s: Seq<char>) -> bool {
    forall|i: int| !has_sep_at(s, i)
}

/// A token that survives the protocol unscathed: non-empty, without the
/// separator, and without whitespace at either edge.
pub open spec fn token_clean(s: Seq<char>) -> bool {
    &&& s.len() > 0
    &&& sep_free(s)
    &&& !is_ws(s[0])
    &&& !is_ws(s[s.len() - 1])
}

/// `s` with its leading whitespace removed.
pub open spec fn trim_front(s: Seq<char>) -> Seq<char>
    decreases s.len(),
{
    if s.len() > 0 && is_ws(s[0]) {
        trim_front(s.skip(1))
    } else {
        s
    }
}

/// `s` with its trailing whitespace removed.
pub open spec fn trim_back(s: Seq<char>) -> Seq<char>
    decreases s.len(),
{
    if s.len() > 0 && is_ws(s.last()) {
        trim_back(s.drop_last())
    } else {
        s
    }
}

/// `s` with whitespace removed from both edges.
pub open spec fn trim_spec(s: Seq<char>) -> Seq<char> {
    trim_back(trim_front(s))
}

/// One leading `[` and one trailing `]` removed, each only if present, with
/// no check that the pair matches: a reply missing one bracket loses one
/// character of its first or last token. This mirrors the permissive decoder
/// deliberately.
pub open spec fn strip_brackets(s: Seq<char>) -> Seq<char> {
    let a = if s.len() > 0 && s[0] == '[' {
        s.skip(1)
    } else {
        s
    };
    if a.len() > 0 && a.last() == ']' {
        a.drop_last()
    } else {
        a
    }
}

/// The position of the first separator occurrence in `s`, if any.
pub open spec fn first_sep(s: Seq<char>) -> Option<int>
    decreases s.len(),
{
    if s.len() < 2 {
        None
    } else if s[0] == ',' && s[1] == ' ' {
        Some(0)
    } else {
        match first_sep(s.skip(1)) {
            None => None,
            Some(j) => Some(j + 1),
        }
    }
}

/// What `first_sep` finds: `None` exactly on separator-free text, otherwise
/// the earliest occurrence.
pub proof fn lemma_first_sep_props(s: Seq<char>)
    ensures
        match first_sep(s) {
            None => sep_free(s),
            Some(i) => has_sep_at(s, i) && (forall|k: int| k < i ==> !has_sep_at(s, k)),
        },
    decreases s.len(),
{
    if s.len() < 2 {
        assert forall|i: int| !has_sep_at(s, i) by {}
    } else if s[0] == ',' && s[1] == ' ' {
    } else {
        lemma_first_sep_props(s.skip(1));
        assert forall|k: int| has_sep_at(s.skip(1), k) == has_sep_at(s, k + 1) by {
            if 0 <= k && k + 2 <= s.len() - 1 {
                assert(s.skip(1)[k] == s[k + 1]);
                assert(s.skip(1)[k + 1] == s[k + 2]);
            }
        }
        match first_sep(s.skip(1)) {
            None => {
                assert forall|i: int| !has_sep_at(s, i) by {
                    if 1 <= i {
                        assert(!has_sep_at(s.skip(1), i - 1));
                    }
                }
            },
            Some(j) => {
                assert(has_sep_at(s.skip(1), j));
                assert forall|k: int| k < j + 1 implies !has_sep_at(s, k) by {
                    if 1 <= k {
                        assert(!has_sep_at(s.skip(1), k - 1));
                    }
                }
            },
        }
    }
}

/// The earliest separator occurrence determines `first_sep`.
pub proof fn lemma_first_sep_of(s: Seq<char>, i: int)
    requires
        has_sep_at(s, i),
        forall|k: int| k < i ==> !has_sep_at(s, k),
    ensures
        first_sep(s) == Some(i),
{
    lemma_first_sep_props(s);
    match first_sep(s) {
        None => {
            assert(!has_sep_at(s, i));
        },
        Some(j) => {
            if j < i {
                assert(!has_sep_at(s, j));
            }
            if i < j {
                assert(!has_sep_at(s, i));
            }
        },
    }
}

/// On separator-free text there is nothing to find.
pub proof fn lemma_first_sep_none(s: Seq<char>)
    requires
        sep_free(s),
    ensures
        first_sep(s) == None::<int>,
{
    lemma_first_sep_props(s);
    match first_sep(s) {
        None => {},
        Some(i) => {
            assert(!has_sep_at(s, i));
        },
    }
}

/// The pieces of `s` between separator occurrences, in order. Splitting never
/// fails: separator-free text is a single piece, and an empty piece stands
/// between two adjacent separators.
pub open spec fn split_sep(s: Seq<char>) -> Seq<Seq<char>>
    decreases s.len(),
    via split_sep_decreases
{
    match first_sep(s) {
        None => seq![s],
        Some(i) => seq![s.take(i)] + split_sep(s.skip(i + 2)),
    }
}

#[via_fn]
proof fn split_sep_decreases(s: Seq<char>) {
    lemma_first_sep_props(s);
}

/// Unfolds one splitting step at the earliest separator occurrence.
pub proof fn lemma_split_sep_step(s: Seq<char>, i: int)
    requires
        has_sep_at(s, i),
        forall|k: int| k < i ==> !has_sep_at(s, k),
    ensures
        split_sep(s) == seq![s.take(i)] + split_sep(s.skip(i + 2)),
{
    lemma_first_sep_of(s, i);
}

/// Separator-free text splits into itself alone.
pub proof fn lemma_split_sep_whole(s: Seq<char>)
    requires
        sep_free(s),
    ensures
        split_sep(s) == seq![s],
{
    lemma_first_sep_none(s);
}

/// `trim_front` removes exactly the leading whitespace run.
pub proof fn lemma_trim_front_at(s: Seq<char>, a: int)
    requires
        0 <= a <= s.len(),
        forall|k: int| 0 <= k < a ==> is_ws(s[k]),
        a == s.len() || !is_ws(s[a]),
    ensures
        trim_front(s) == s.skip(a),
    decreases a,
{
    if a == 0 {
        assert(s.skip(0) =~= s);
    } else {
        assert(is_ws(s[0]));
        lemma_trim_front_at(s.skip(1), a - 1);
        assert(s.skip(1).skip(a - 1) =~= s.skip(a));
    }
}

/// `trim_back` removes exactly the trailing whitespace run.
pub proof fn lemma_trim_back_at(s: Seq<char>, b: int)
    requires
        0 <= b <= s.len(),
        forall|k: int| b <= k < s.len() ==> is_ws(s[k]),
        b == 0 || !is_ws(s[b - 1]),
    ensures
        trim_back(s) == s.take(b),
    decreases s.len(),
{
    if b == s.len() {
        if s.len() > 0 {
            assert(!is_ws(s.last()));
        }
        assert(s.take(b) =~= s);
    } else {
        assert(is_ws(s.last()));
        lemma_trim_back_at(s.drop_last(), b);
        assert(s.drop_last().take(b) =~= s.take(b));
    }
}

/// Whether `c` is removed by the reply trim.
pub fn is_ws_char(c: char) -> (r: bool)
    ensures
        r == is_ws(c),
{
    c == ' ' || c == '\t' || c == '\n' || c == '\r'
}

/// Removes whitespace from both edges of `s`.
pub fn trim_str<'a>(s: &'a str) -> (r: &'a str)
    ensures
        r@ == trim_spec(s@),
{
    let n: usize = s.unicode_len();
    let mut a: usize = 0;
    while a < n && is_ws_char(s.get_char(a))
        invariant
            n == s@.len(),
            a <= n,
            forall|k: int| 0 <= k < a ==> is_ws(s@[k]),
        decreases n - a,
    {
        a = a + 1;
    }
    let mut b: usize = n;
    while b > a && is_ws_char(s.get_char(b - 1))
        invariant
            n == s@.len(),
            a <= b <= n,
            forall|k: int| b <= k < n ==> is_ws(s@[k]),
        decreases b,
    {
        b = b - 1;
    }
    let r = s.substring_char(a, b);
    proof {
        lemma_trim_front_at(s@, a as int);
        assert forall|k: int| b - a <= k < s@.skip(a as int).len() implies is_ws(
            s@.skip(a as int)[k],
        ) by {
            assert(s@.skip(a as int)[k] == s@[k + a]);
        }
        lemma_trim_back_at(s@.skip(a as int), b - a);
        assert(s@.skip(a as int).take(b - a) =~= s@.subrange(a as int, b as int));
    }
    r
}

/// Strips one leading `[` and one trailing `]`, each only if present.
pub fn strip_brackets_str<'a>(s: &'a str) -> (r: &'a str)
    ensures
        r@ == strip_brackets(s@),
{
    let n: usize = s.unicode_len();
    let start: usize = if n > 0 && s.get_char(0) == '[' {
        1
    } else {
        0
    };
    let end: usize = if n > start && s.get_char(n - 1) == ']' {
        n - 1
    } else {
        n
    };
    let r = s.substring_char(start, end);
    proof {
        let a = if s@.len() > 0 && s@[0] == '[' {
            s@.skip(1)
        } else {
            s@
        };
        assert(a =~= s@.subrange(start as int, n as int));
        if a.len() > 0 && a.last() == ']' {
            assert(a.drop_last() =~= s@.subrange(start as int, end as int));
        } else {
            assert(a =~= s@.subrange(start as int, end as int));
        }
    }
    r
}

/// The views of a vector of owned tokens.
pub open spec fn views_of(ts: Seq<String>) -> Seq<Seq<char>> {
    ts.map_values(|t: String| t@)
}

/// Splits `s` on every occurrence of the separator `", "`.
pub fn split_tokens(s: &str) -> (r: Vec<String>)
    ensures
        views_of(r@) == split_sep(s@),
{
    let n: usize = s.unicode_len();
    let mut out: Vec<String> = Vec::new();
    let mut start: usize = 0;
    let mut i: usize = 0;
    proof {
        assert(s@.skip(0) =~= s@);
        assert(views_of(out@) =~= Seq::<Seq<char>>::empty());
        assert(Seq::<Seq<char>>::empty() + split_sep(s@) =~= split_sep(s@));
    }
    while n > 0 && i < n - 1
        invariant
            n == s@.len(),
            start <= i <= n,
            forall|k: int| 0 <= k < i - start ==> !has_sep_at(s@.skip(start as int), k),
            split_sep(s@) == views_of(out@) + split_sep(s@.skip(start as int)),
        decreases n - i,
    {
        if s.get_char(i) == ',' && s.get_char(i + 1) == ' ' {
            let tok = s.substring_char(start, i).to_owned();
            proof {
                assert(s@.skip(start as int)[i - start] == s@[i as int]);
                assert(s@.skip(start as int)[i - start + 1] == s@[i + 1]);
                lemma_split_sep_step(s@.skip(start as int), i - start);
                assert(s@.skip(start as int).take(i - start) =~= s@.subrange(
                    start as int,
                    i as int,
                ));
                assert(s@.skip(start as int).skip(i - start + 2) =~= s@.skip(i + 2));
                assert(views_of(out@.push(tok)) =~= views_of(out@) + seq![tok@]);
                assert((views_of(out@) + seq![tok@]) + split_sep(s@.skip(i + 2)) =~= views_of(
                    out@,
                ) + (seq![tok@] + split_sep(s@.skip(i + 2))));
            }
            out.push(tok);
            start = i + 2;
            i = i + 2;
        } else {
            proof {
                assert(s@.skip(start as int)[i - start] == s@[i as int]);
                if i - start + 2 <= s@.skip(start as int).len() {
                    assert(s@.skip(start as int)[i - start + 1] == s@[i + 1]);
                }
                assert(!has_sep_at(s@.skip(start as int), i - start));
            }
            i = i + 1;
        }
    }
    let tok = s.substring_char(start, n).to_owned();
    proof {
        assert forall|k: int| !has_sep_at(s@.skip(start as int), k) by {
            if 0 <= k < i - start {
            } else if 0 <= k && k + 2 <= n - start {
                assert(i >= n - 1);
            }
        }
        lemma_split_sep_whole(s@.skip(start as int));
        assert(s@.skip(start as int) =~= s@.subrange(start as int, n as int));
        assert(views_of(out@.push(tok)) =~= views_of(out@) + seq![tok@]);
    }
    out.push(tok);
    out
}

} // verus!
