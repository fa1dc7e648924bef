//! The credential of the database account.

use azure_data_cosmos::prelude::AuthorizationToken;
use vstd::prelude::*;

verus! {

/// The credential that the database client signs its requests with.
#[verifier::external_type_specification]
#[verifier::external_body]
pub struct ExAuthorizationToken(AuthorizationToken);

/// The error of the database client's crates.
#[verifier::external_type_specification]
#[verifier::external_body]
pub struct ExAzureError(azure_core::Error);

/// The credential that `AuthorizationToken::primary_key` makes of an account
/// key.
pub uninterp spec fn credential_of(key: Seq<char>) -> AuthorizationToken;

/// Builds the credential from the account's primary key, with
/// `AuthorizationToken::primary_key`. That function wraps the key as a secret
/// and does not examine it. What is assumed here: it returns a credential for
/// every key, and the credential depends on the key alone.
#[verifier::external_body]
pub(crate) fn primary_key(key: String) -> (credential: Result<
    AuthorizationToken,
    azure_core::Error,
>)
    ensures
        credential is Ok,
        credential->Ok_0 == credential_of(key@),
{
    AuthorizationToken::primary_key(key)
}

} // verus!
