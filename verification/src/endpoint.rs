use vstd::prelude::*;

use crate::json::{field, parse_json, parsed_json, string_of, Json};

verus! {

/// The token endpoint's address type of the OAuth2 client.
#[verifier::external_type_specification]
#[verifier::external_body]
pub struct ExTokenUrl(oauth2::TokenUrl);

/// Why a text is no URL.
#[verifier::external_type_specification]
#[verifier::external_body]
pub struct ExUrlParseError(oauth2::url::ParseError);

/// Whether `text` reads as an absolute URL, as the `url` crate parses it.
pub uninterp spec fn parses_as_url(text: Seq<char>) -> bool;

/// The address that a token endpoint holds: the text it was made of, which its
/// `as_str` gives back.
pub uninterp spec fn token_address(t: oauth2::TokenUrl) -> Seq<char>;

/// Makes a token endpoint address of `url`.
///
/// Trusted: oauth2's `TokenUrl::new`, which succeeds exactly where `url::Url::parse`
/// accepts the text, and then keeps the text as it was given. The parse is named, not
/// described.
#[verifier::external_body]
fn new_token_url(url: String) -> (r: Result<oauth2::TokenUrl, oauth2::url::ParseError>)
    ensures
        r is Ok == parses_as_url(url@),
        r matches Ok(t) ==> token_address(t) == url@,
{
    oauth2::TokenUrl::new(url)
}

/// Why the service cannot be asked for a token.
#[derive(Debug)]
pub enum AuthError {
    /// The token endpoint's address is no URL.
    InvalidTokenUrl(oauth2::url::ParseError),
}

/// Why the answer to a request for the identities holds none.
#[derive(Clone, Copy, Debug, PartialEq, Eq, Structural)]
pub enum BodyError {
    /// The answer is no JSON text.
    NotJson,
    /// The answer has no member `identities`.
    MissingIdentities,
    /// The member `identities` is no array.
    IdentitiesNotArray,
}

/// Why an identity cannot be deleted.
#[derive(Clone, Copy, Debug, PartialEq, Eq, Structural)]
pub enum IdentityError {
    /// The identity has no `identityId` string.
    MissingIdentityId,
    /// The identity has no `eTag` string.
    MissingEtag,
}

/// The address of the token endpoint under `base_url`.
pub open spec fn token_url_text(base_url: Seq<char>) -> Seq<char> {
    base_url + "/connect/token"@
}

/// The address of the identities of `account_id` under `base_url`.
pub open spec fn identities_url_text(base_url: Seq<char>, account_id: Seq<char>) -> Seq<char> {
    base_url + "/api/v4/accounts/"@ + account_id + "/identities"@
}

/// The address that deletes the identity `identity_id`, in the version `etag`.
pub open spec fn identity_url_text(base_url: Seq<char>, account_id: Seq<char>, identity_id: Seq<char>, etag: Seq<char>) -> Seq<char> {
    identities_url_text(base_url, account_id) + "/"@ + identity_id + "?eTag="@ + etag
}

/// The address of the picture of the identity `identity_id`.
pub open spec fn picture_url_text(base_url: Seq<char>, account_id: Seq<char>, identity_id: Seq<char>) -> Seq<char> {
    identities_url_text(base_url, account_id) + "/"@ + identity_id + "/picture"@
}

/// The `identityId` of `identity`, where it is a string.
pub open spec fn identity_id_of(identity: Json) -> Option<Seq<char>> {
    string_of(field(identity, "identityId"@))
}

/// The `eTag` of `identity`, where it is a string.
pub open spec fn etag_of(identity: Json) -> Option<Seq<char>> {
    string_of(field(identity, "eTag"@))
}

/// The address of the token endpoint under `base_url`.
pub fn token_url(base_url: &str) -> (r: String)
    ensures
        r@ == token_url_text(base_url@),
        r@ == base_url@ + "/connect/token"@,
{
    let mut url = base_url.to_owned();
    url.append("/connect/token");
    url
}

/// The token endpoint under `base_url`, where its address is a URL.
pub fn token_endpoint(base_url: &str) -> (r: Result<oauth2::TokenUrl, AuthError>)
    ensures
        r is Ok == parses_as_url(token_url_text(base_url@)),
        r matches Ok(t) ==> token_address(t) == token_url_text(base_url@),
        r matches Ok(t) ==> token_address(t) == base_url@ + "/connect/token"@,
{
    match new_token_url(token_url(base_url)) {
        Ok(t) => Ok(t),
        Err(e) => Err(AuthError::InvalidTokenUrl(e)),
    }
}

/// The address of the identities of `account_id` under `base_url`.
pub fn identities_url(base_url: &str, account_id: &str) -> (r: String)
    ensures
        r@ == identities_url_text(base_url@, account_id@),
        r@ == base_url@ + "/api/v4/accounts/"@ + account_id@ + "/identities"@,
{
    let mut url = base_url.to_owned();
    url.append("/api/v4/accounts/");
    url.append(account_id);
    url.append("/identities");
    url
}

/// Whether `v` has a member `identities` that is an array.
pub open spec fn lists_identities(v: Json) -> bool {
    field(v, "identities"@) matches Some(Json::Array(_))
}

/// The identities that the answer `v` of the identity service lists.
pub open spec fn listed_identities(v: Json) -> Seq<Json> {
    match field(v, "identities"@) {
        Some(Json::Array(items)) => items@,
        _ => Seq::empty(),
    }
}

/// The identities that an answer of the identity service lists, where it has an
/// `identities` array.
pub fn identities_from_response(response: Json) -> (r: Vec<Json>)
    requires
        lists_identities(response),
    ensures
        r@ == listed_identities(response),
{
    match response.take_field("identities") {
        Some(Json::Array(items)) => items,
        _ => Vec::new(),
    }
}

/// The identities that the answer `body` lists, where it is JSON text; an answer that
/// is JSON must have an `identities` array.
pub fn identities_from_body(body: &str) -> (r: Result<Vec<Json>, BodyError>)
    requires
        parsed_json(body@) matches Some(v) ==> lists_identities(v),
    ensures
        match parsed_json(body@) {
            Some(v) => r matches Ok(w) && w@ == listed_identities(v),
            None => r == Err::<Vec<Json>, BodyError>(BodyError::NotJson),
        },
{
    match parse_json(body) {
        Some(v) => Ok(identities_from_response(v)),
        None => Err(BodyError::NotJson),
    }
}

/// The identities that the answer `body` lists, or why it lists none.
pub fn try_identities_from_body(body: &str) -> (r: Result<Vec<Json>, BodyError>)
    ensures
        match parsed_json(body@) {
            None => r == Err::<Vec<Json>, BodyError>(BodyError::NotJson),
            Some(v) => match field(v, "identities"@) {
                Some(Json::Array(items)) => r matches Ok(w) && w@ == items@,
                Some(_) => r == Err::<Vec<Json>, BodyError>(BodyError::IdentitiesNotArray),
                None => r == Err::<Vec<Json>, BodyError>(BodyError::MissingIdentities),
            },
        },
{
    match parse_json(body) {
        None => Err(BodyError::NotJson),
        Some(v) => match v.get("identities") {
            Some(Json::Array(_)) => identities_from_body(body),
            Some(_) => Err(BodyError::IdentitiesNotArray),
            None => Err(BodyError::MissingIdentities),
        },
    }
}

/// The address that deletes `identity` from the account `account_id` under `base_url`;
/// the identity must have an `identityId` and an `eTag` string.
pub fn identity_deletion_url(base_url: &str, account_id: &str, identity: &Json) -> (r: String)
    requires
        identity_id_of(*identity) is Some,
        etag_of(*identity) is Some,
    ensures
        r@ == identity_url_text(base_url@, account_id@, identity_id_of(*identity)->0, etag_of(*identity)->0),
        string_of(field(*identity, "identityId"@)) matches Some(id) && string_of(field(*identity, "eTag"@)) matches Some(etag)
            && r@ == base_url@ + "/api/v4/accounts/"@ + account_id@ + "/identities"@ + "/"@ + id + "?eTag="@ + etag,
{
    let id = identity.get("identityId").unwrap().as_str().unwrap();
    let etag = identity.get("eTag").unwrap().as_str().unwrap();
    let mut url = identities_url(base_url, account_id);
    url.append("/");
    url.append(id);
    url.append("?eTag=");
    url.append(etag);
    url
}

/// The address that deletes `identity`, or why it cannot be deleted.
pub fn try_identity_deletion_url(base_url: &str, account_id: &str, identity: &Json) -> (r: Result<String, IdentityError>)
    ensures
        match (identity_id_of(*identity), etag_of(*identity)) {
            (None, _) => r == Err::<String, IdentityError>(IdentityError::MissingIdentityId),
            (Some(_), None) => r == Err::<String, IdentityError>(IdentityError::MissingEtag),
            (Some(id), Some(etag)) => r matches Ok(u) && u@ == identity_url_text(base_url@, account_id@, id, etag),
        },
        r is Ok <==> (string_of(field(*identity, "identityId"@)) is Some && string_of(field(*identity, "eTag"@)) is Some),
        r matches Ok(u) ==> (string_of(field(*identity, "identityId"@)) matches Some(id) && string_of(field(*identity, "eTag"@)) matches Some(etag)
            && u@ == base_url@ + "/api/v4/accounts/"@ + account_id@ + "/identities"@ + "/"@ + id + "?eTag="@ + etag),
{
    if !has_string(identity, "identityId") {
        Err(IdentityError::MissingIdentityId)
    } else if !has_string(identity, "eTag") {
        Err(IdentityError::MissingEtag)
    } else {
        Ok(identity_deletion_url(base_url, account_id, identity))
    }
}

/// The address of the picture of `identity` in the account `account_id` under `base_url`;
/// the identity must have an `identityId` string.
pub fn picture_deletion_url(base_url: &str, account_id: &str, identity: &Json) -> (r: String)
    requires
        identity_id_of(*identity) is Some,
    ensures
        r@ == picture_url_text(base_url@, account_id@, identity_id_of(*identity)->0),
        string_of(field(*identity, "identityId"@)) matches Some(id)
            && r@ == base_url@ + "/api/v4/accounts/"@ + account_id@ + "/identities"@ + "/"@ + id + "/picture"@,
{
    let id = identity.get("identityId").unwrap().as_str().unwrap();
    let mut url = identities_url(base_url, account_id);
    url.append("/");
    url.append(id);
    url.append("/picture");
    url
}

/// The address of the picture of `identity`, or why it has none.
pub fn try_picture_deletion_url(base_url: &str, account_id: &str, identity: &Json) -> (r: Result<String, IdentityError>)
    ensures
        match identity_id_of(*identity) {
            None => r == Err::<String, IdentityError>(IdentityError::MissingIdentityId),
            Some(id) => r matches Ok(u) && u@ == picture_url_text(base_url@, account_id@, id),
        },
        r is Ok <==> string_of(field(*identity, "identityId"@)) is Some,
        r matches Ok(u) ==> (string_of(field(*identity, "identityId"@)) matches Some(id)
            && u@ == base_url@ + "/api/v4/accounts/"@ + account_id@ + "/identities"@ + "/"@ + id + "/picture"@),
{
    if has_string(identity, "identityId") {
        Ok(picture_deletion_url(base_url, account_id, identity))
    } else {
        Err(IdentityError::MissingIdentityId)
    }
}

/// Whether `identity` has a string member `key`.
fn has_string(identity: &Json, key: &str) -> (r: bool)
    ensures
        r == (string_of(field(*identity, key@)) is Some),
{
    match identity.get(key) {
        Some(v) => v.as_str().is_some(),
        None => false,
    }
}

/// Whether the service reports a deletion done: its answer has the status 200 OK.
pub fn deletion_succeeded(status: u16) -> (r: bool)
    ensures
        r == (status == 200),
{
    status == 200
}

} // verus!
