//! Passwords kept behind `sec::Secret`, so that they do not show up in
//! debug output.

use sec::Secret;
use vstd::prelude::*;

verus! {

/// `sec::Secret`, a value that does not show in debug output. What it
/// conceals is reached through the functions below only.
#[verifier::external_type_specification]
#[verifier::external_body]
#[verifier::reject_recursive_types(T)]
pub struct ExSecret<T>(Secret<T>);

/// The text that a secret conceals.
pub uninterp spec fn secret_text(secret: Secret<String>) -> Seq<char>;

/// Conceals `text`.
///
/// Wraps `Secret::new`, which stores its argument unchanged.
#[verifier::external_body]
pub(crate) fn conceal(text: String) -> (secret: Secret<String>)
    ensures
        secret_text(secret) == text@,
{
    Secret::new(text)
}

/// The concealed text.
///
/// Wraps `Secret::reveal_str`, which hands out the stored string.
#[verifier::external_body]
pub(crate) fn concealed_text(secret: &Secret<String>) -> (text: &str)
    ensures
        text@ == secret_text(*secret),
{
    secret.reveal_str()
}

/// A second secret concealing the same text.
///
/// Wraps `Secret::clone`, which clones the stored string.
#[verifier::external_body]
pub(crate) fn duplicate(secret: &Secret<String>) -> (copy: Secret<String>)
    ensures
        secret_text(copy) == secret_text(*secret),
{
    secret.clone()
}

} // verus!
