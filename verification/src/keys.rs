//! The boundary to the JWT library: key-set and key types, key-id
//! extraction, key lookup and token validation. Each item here is trusted;
//! everything that can be checked from plain values is done elsewhere.

use vstd::prelude::*;

verus! {

#[verifier::external_type_specification]
#[verifier::external_body]
pub struct ExJwks(alcoholic_jwt::JWKS);

#[verifier::external_type_specification]
#[verifier::external_body]
pub struct ExJwk(alcoholic_jwt::JWK);

/// The key id that `alcoholic_jwt::token_kid` decodes from a token's header
/// part; it depends on the token string alone. `None` stands both for a
/// token whose header carries no key id and for one whose header cannot be
/// decoded at all.
pub uninterp spec fn kid_of(token: Seq<char>) -> Option<Seq<char>>;

/// Relies on alcoholic_jwt::token_kid: decodes the key id from the token's
/// header part, a function of the token string alone. A decode error and an
/// absent key id are folded into `None`, since both deny downstream.
#[verifier::external_body]
pub(crate) fn token_kid_w(token: &str) -> (r: Option<String>)
    ensures
        r.deep_view() == kid_of(token@),
{
    match alcoholic_jwt::token_kid(token) {
        Ok(Some(kid)) => Some(kid),
        _ => None,
    }
}

/// Relies on alcoholic_jwt::JWKS::find: looks up a key by key id in the set.
/// The set is opaque here, so nothing is promised of the result.
#[verifier::external_body]
pub(crate) fn find_key<'a>(keys: &'a alcoholic_jwt::JWKS, kid: &String) -> (r: Option<
    &'a alcoholic_jwt::JWK,
>) {
    keys.find(kid)
}

/// What token validation hands back: the subject and scope claims, when the
/// payload carries them as strings.
pub struct TokenClaims {
    pub subject: Option<String>,
    pub scope: Option<String>,
}

/// Relies on alcoholic_jwt::validate: verifies the signature against the key
/// and checks the issuer, audience, subject-present and not-expired claims.
/// The outcome also depends on the clock and the key, so nothing is promised
/// of it; the decision over any returned claims is made by verified code.
/// The expiry check inside the call panics if the system clock reads before
/// the UNIX epoch — an environmental failure, not reachable from any input.
#[verifier::external_body]
pub(crate) fn validate_token(
    token: &str,
    key: &alcoholic_jwt::JWK,
    issuer: &String,
    audience: &String,
) -> (r: Option<TokenClaims>) {
    let checks = vec![
        alcoholic_jwt::Validation::Issuer(issuer.clone()),
        alcoholic_jwt::Validation::Audience(audience.clone()),
        alcoholic_jwt::Validation::SubjectPresent,
        alcoholic_jwt::Validation::NotExpired,
    ];
    match alcoholic_jwt::validate(token, key, checks) {
        Ok(valid) => Some(TokenClaims {
            subject: valid.claims.get("sub").and_then(|v| v.as_str()).map(String::from),
            scope: valid.claims.get("scope").and_then(|v| v.as_str()).map(String::from),
        }),
        Err(_) => None,
    }
}

/// Relies on serde_json::from_str: parses a fetched body as a JSON Web Key
/// Set document; any parse failure is `None`.
#[verifier::external_body]
pub fn parse_jwks(body: &str) -> (r: Option<alcoholic_jwt::JWKS>) {
    serde_json::from_str(body).ok()
}

} // verus!
