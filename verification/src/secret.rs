//! A secret-bearing configuration value.
//!
//! The database password must never appear in logs, error messages or any
//! default formatting of the settings. The type below implements no
//! formatting trait at all, so no such output can include the plaintext;
//! the one narrowly named accessor, [`SecretString::expose_secret`], yields
//! it for the one call site that needs it (building a connection string).

use vstd::prelude::*;

verus! {

/// A string whose plaintext only [`SecretString::expose_secret`] yields.
pub struct SecretString {
    secret: String,
}

impl View for SecretString {
    type V = Seq<char>;

    closed spec fn view(&self) -> Seq<char> {
        self.secret@
    }
}

impl SecretString {
    /// Wraps a plaintext secret.
    pub fn new(secret: String) -> (r: SecretString)
        ensures
            r@ == secret@,
    {
        SecretString { secret }
    }

    /// The plaintext. The narrow name marks every call site that handles
    /// the secret in the clear.
    pub fn expose_secret(&self) -> (r: &String)
        ensures
            r@ == self@,
    {
        &self.secret
    }
}

} // verus!
