use vstd::prelude::*;

verus! {

/// The signing key of an API integration.
#[allow(non_snake_case)]
#[derive(Clone, Debug)]
pub struct Key {
    pub kid: String,
    pub keyType: String,
    pub algorithm: String,
    pub exponent: String,
    pub modulus: String,
    pub d: String,
    pub dp: String,
    pub dq: String,
    pub inverseQ: String,
    pub p: String,
    pub q: String,
}

/// The key file of an API integration: the account, the client's credentials, and the
/// addresses of the services.
#[allow(non_snake_case)]
#[derive(Clone, Debug)]
pub struct KeyFile {
    pub accountId: String,
    pub key: Key,
    pub clientId: String,
    pub clientSecret: String,
    pub stsUrl: String,
    pub identityServiceUrl: String,
    pub principalServiceUrl: String,
    pub teamServiceUrl: String,
    pub roleServiceUrl: String,
    pub identityRequestServiceUrl: String,
    pub webhooksServiceUrl: String,
}

} // verus!
