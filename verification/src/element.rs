//! The capability an element type must offer to take part in a delegated
//! sort: it renders itself as text and can be reconstructed from text, with
//! reconstruction allowed to fail. No ordering capability is asked for —
//! ordering is delegated to the remote service.

use vstd::prelude::*;
use crate::text::token_clean;

verus! {

/// The two text capabilities of a sortable element, together with the laws
/// that make the prompt/reply round trip lossless for well-behaved types.
pub trait SortElement: Sized {
    /// The canonical text rendering of this value.
    spec fn text_spec(&self) -> Seq<char>;

    /// What a piece of text reconstructs to: `Some` exactly on accepted text.
    spec fn parse_spec(s: Seq<char>) -> Option<Self>;

    /// Renders the value as text.
    fn to_text(&self) -> (r: String)
        ensures
            r@ == self.text_spec(),
    ;

    /// Reconstructs a value from text; `None` when the text is rejected.
    fn from_text(s: &str) -> (r: Option<Self>)
        ensures
            r == Self::parse_spec(s@),
    ;

    /// Law: parsing a rendering gives the value back.
    proof fn lemma_text_round_trip(&self)
        ensures
            Self::parse_spec(self.text_spec()) == Some(*self),
    ;

    /// Law: a rendering never collides with the protocol's delimiters: it is
    /// non-empty, contains no `", "` separator and has no whitespace at
    /// either edge.
    proof fn lemma_text_clean(&self)
        ensures
            token_clean(self.text_spec()),
    ;
}

} // verus!
