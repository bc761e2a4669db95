//! The token set returned by a refresh exchange, and case-insensitive
//! lookup of its fields by name.
use vstd::prelude::*;
use crate::text::lower_ascii;
use crate::text::str_lower_eq;

verus! {

/// The three token strings returned by a refresh exchange.
#[derive(Debug, Clone)]
pub struct Token {
    pub access_token: String,
    pub refresh_token: String,
    pub id_token: String,
}

/// The token field that a name refers to, after case normalisation.
pub open spec fn spec_token_field(t: Token, name: Seq<char>) -> Option<Seq<char>> {
    if lower_ascii(name) == "access_token"@ {
        Some(t.access_token@)
    } else if lower_ascii(name) == "refresh_token"@ {
        Some(t.refresh_token@)
    } else if lower_ascii(name) == "id_token"@ {
        Some(t.id_token@)
    } else {
        None
    }
}

/// Field lookup depends only on the case-normalised name: two names with
/// the same ASCII lower-casing resolve to the same token field.
pub proof fn lemma_token_field_case_insensitive(t: Token, a: Seq<char>, b: Seq<char>)
    requires
        lower_ascii(a) == lower_ascii(b),
    ensures
        spec_token_field(t, a) == spec_token_field(t, b),
{
}

impl Token {
    /// The value of the field that `name` refers to, looked up
    /// case-insensitively; `None` when no field matches.
    pub fn field_value(&self, name: &str) -> (r: Option<String>)
        ensures
            match r {
                Some(v) => spec_token_field(*self, name@) == Some(v@),
                None => spec_token_field(*self, name@) is None,
            },
    {
        if str_lower_eq(name, "access_token") {
            Some(self.access_token.clone())
        } else if str_lower_eq(name, "refresh_token") {
            Some(self.refresh_token.clone())
        } else if str_lower_eq(name, "id_token") {
            Some(self.id_token.clone())
        } else {
            None
        }
    }
}

} // verus!
