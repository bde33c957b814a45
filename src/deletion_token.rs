use crate::token::DELETION_TOKEN_LEN;
use vstd::prelude::*;
use vstd::utf8::is_ascii_chars;

verus! {

/// Whether `key` has the shape of a deletion token: 16 ASCII characters.
pub open spec fn is_valid_key(key: Seq<char>) -> bool {
    key.len() == DELETION_TOKEN_LEN && is_ascii_chars(key)
}

/// Returns true if `key` is a valid API key string.
fn is_valid(key: &str) -> (r: bool)
    ensures
        r == is_valid_key(key@),
{
    key.is_ascii() && key.unicode_len() == DELETION_TOKEN_LEN
}

/// A deletion token taken from a request, checked for shape (not yet against an album).
#[derive(Debug, Clone)]
pub struct DeletionToken(String);

impl View for DeletionToken {
    type V = Seq<char>;

    closed spec fn view(&self) -> Seq<char> {
        self.0@
    }
}

/// Why a request carries no usable deletion token.
#[derive(Debug, Clone, Copy, PartialEq, Eq, Structural)]
pub enum DeletionTokenError {
    /// No token was given.
    Missing,
    /// The token given is not 16 ASCII characters.
    Invalid,
    /// More than one token was given.
    Ambiguous,
}

impl DeletionToken {
    /// The token's text.
    pub fn as_str(&self) -> (r: &str)
        ensures
            r@ == self@,
    {
        self.0.as_str()
    }

    /// Reads the token from the value of the `deletion_token` query parameter, if present.
    pub fn from_query(value: Option<String>) -> (r: Result<DeletionToken, DeletionTokenError>)
        ensures
            match value {
                None => r == Err::<DeletionToken, DeletionTokenError>(DeletionTokenError::Missing),
                Some(v) => match r {
                    Ok(t) => is_valid_key(v@) && t@ == v@,
                    Err(e) => !is_valid_key(v@) && e == DeletionTokenError::Invalid,
                },
            },
    {
        match value {
            Some(token) => {
                if is_valid(token.as_str()) {
                    Ok(DeletionToken(token))
                } else {
                    Err(DeletionTokenError::Invalid)
                }
            },
            None => Err(DeletionTokenError::Missing),
        }
    }

    /// Reads the token from the values of the API-key header: exactly one is expected.
    pub fn from_headers(values: &Vec<String>) -> (r: Result<DeletionToken, DeletionTokenError>)
        ensures
            values@.len() == 0 ==> r == Err::<DeletionToken, DeletionTokenError>(DeletionTokenError::Missing),
            values@.len() > 1 ==> r == Err::<DeletionToken, DeletionTokenError>(DeletionTokenError::Ambiguous),
            values@.len() == 1 ==> match r {
                Ok(t) => is_valid_key(values@[0]@) && t@ == values@[0]@,
                Err(e) => !is_valid_key(values@[0]@) && e == DeletionTokenError::Invalid,
            },
    {
        if values.len() == 0 {
            return Err(DeletionTokenError::Missing);
        }
        if values.len() > 1 {
            return Err(DeletionTokenError::Ambiguous);
        }
        let token = values[0].clone();
        if is_valid(token.as_str()) {
            Ok(DeletionToken(token))
        } else {
            Err(DeletionTokenError::Invalid)
        }
    }
}

} // verus!
