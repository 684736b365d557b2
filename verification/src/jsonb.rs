//! The internal JSON type and its text codec.
//!
//! JSON values, like decimals, have no native interchange representation:
//! they travel as canonical minified text inside a string-typed field
//! tagged with an extension name. The internal value holds the canonical
//! text itself, so rendering is exact and decoding re-canonicalizes.

use vstd::prelude::*;

verus! {

/// Whether a character sequence is valid JSON text.
pub uninterp spec fn json_valid(s: Seq<char>) -> bool;

/// The canonical minified rendering of valid JSON text.
pub uninterp spec fn json_canon(s: Seq<char>) -> Seq<char>;

/// Relies on serde_json's `from_str` for `Value` and on `to_string`:
/// parsing succeeds exactly on valid JSON text; the compact rendering of
/// the parsed value is a function of the text alone; and the rendering
/// parses back to the same value, so canonicalization is idempotent.
#[verifier::external_body]
fn json_canonicalize(s: &str) -> (r: Option<String>)
    ensures
        r is Some <==> json_valid(s@),
        (match r {
            Some(t) => t@ == json_canon(s@) && json_valid(json_canon(s@)) && json_canon(
                json_canon(s@),
            ) == json_canon(s@),
            None => true,
        }),
{
    match serde_json::from_str::<serde_json::Value>(s) {
        Ok(v) => Some(v.to_string()),
        Err(_) => None,
    }
}

/// A JSON value, held as its canonical minified text.
#[derive(Debug, PartialEq, Eq)]
pub struct Jsonb {
    text: String,
}

impl Clone for Jsonb {
    fn clone(&self) -> (r: Jsonb)
        ensures
            r@ == self@,
    {
        proof {
            use_type_invariant(self);
        }
        Jsonb { text: self.text.clone() }
    }
}

impl View for Jsonb {
    type V = Seq<char>;

    closed spec fn view(&self) -> Seq<char> {
        self.text@
    }
}

impl Jsonb {
    /// The held text is valid JSON and already canonical.
    #[verifier::type_invariant]
    pub closed spec fn inv(self) -> bool {
        json_valid(self.text@) && json_canon(self.text@) == self.text@
    }

    /// Parses JSON text into the internal value, canonicalizing it.
    pub fn from_text(s: &str) -> (r: Option<Jsonb>)
        ensures
            r is Some <==> json_valid(s@),
            (match r {
                Some(j) => j@ == json_canon(s@),
                None => true,
            }),
    {
        match json_canonicalize(s) {
            Some(t) => Some(Jsonb { text: t }),
            None => None,
        }
    }

    /// The canonical text of the value. Because of the type invariant the
    /// returned text is valid JSON and fixed by canonicalization.
    pub fn as_text(&self) -> (r: &String)
        ensures
            r@ == self@,
            json_valid(self@),
            json_canon(self@) == self@,
    {
        proof {
            use_type_invariant(self);
        }
        &self.text
    }

    /// A copy of the canonical text, with the same guarantees as
    /// [`Self::as_text`].
    pub fn to_text(&self) -> (r: String)
        ensures
            r@ == self@,
            json_valid(self@),
            json_canon(self@) == self@,
    {
        proof {
            use_type_invariant(self);
        }
        self.text.clone()
    }
}

} // verus!
