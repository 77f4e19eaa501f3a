use ident_remover::endpoint::{
    deletion_succeeded, identities_from_body, identities_from_response, identities_url, identity_deletion_url,
    picture_deletion_url, token_endpoint, token_url, try_identities_from_body, try_identity_deletion_url,
    try_picture_deletion_url, BodyError, IdentityError,
};
use ident_remover::json::Json;

fn model(v: &serde_json::Value) -> Json {
    match v {
        serde_json::Value::Null => Json::Null,
        serde_json::Value::Bool(b) => Json::Bool(*b),
        serde_json::Value::Number(n) => Json::Number(n.to_string()),
        serde_json::Value::String(s) => Json::Str(s.clone()),
        serde_json::Value::Array(a) => Json::Array(a.iter().map(model).collect()),
        serde_json::Value::Object(m) => Json::Object(m.iter().map(|(k, v)| (k.clone(), model(v))).collect()),
    }
}

const IDENTITY: &str = r#"{
    "accountId": "abcdefgdh-fcfc-0000-abdc-afafafafafafaf",
    "companyData": { "approvers": [] },
    "createdBy": "SystemService",
    "creationDateUtc": "2025-07-02T14:52:39.0438424Z",
    "displayName": "John Doe",
    "eTag": "2",
    "email": "john.doe@example.com",
    "firstName": "John",
    "hasLicensedVehicles": false,
    "hasVehicles": false,
    "identityId": "d2c68f36-fb4e-4606-b831-617f7ab06094",
    "identityType": "Employee",
    "isDeleted": false,
    "isSCSaaS": true,
    "lastModificationDateUtc": "2026-02-27T09:07:19.1960627Z",
    "lastModifiedBy": "phtephen@example.com",
    "lastModifiedByIdentityId": "bc1b3d75-f2a5-4aee-8c13-ad1dfe3b54cb",
    "lastModifiedByPrincipalType": "User",
    "lastName": "Doe",
    "ordinal": 2,
    "privateData": {},
    "status": "Inactive",
    "systemData": {
        "customFields": [],
        "horizonId": "5a56e94b92964d6da3d57258508b42e7",
        "provisioningAttributes": [],
        "resourceFilters": []
    }
}"#;

fn parse(text: &str) -> Json {
    model(&serde_json::from_str::<serde_json::Value>(text).unwrap())
}

#[test]
fn token_address_is_built_and_parsed() {
    assert_eq!(token_url("http://127.0.0.1:8080"), "http://127.0.0.1:8080/connect/token");
    let t = token_endpoint("http://127.0.0.1:8080").unwrap();
    assert_eq!(t.as_str(), "http://127.0.0.1:8080/connect/token");
    assert!(token_endpoint("not a url").is_err());
    assert!(token_endpoint("").is_err());
}

#[test]
fn identity_list_is_read_from_the_answer() {
    assert_eq!(identities_url("http://127.0.0.1:8080", "accountID"), "http://127.0.0.1:8080/api/v4/accounts/accountID/identities");
    let body = format!("{{\"identities\":[{}]}}", IDENTITY);
    let identities = try_identities_from_body(&body).unwrap();
    assert_eq!(identities.len(), 1);
    assert_eq!(identities[0].get("displayName").and_then(|n| n.as_str()), Some("John Doe"));
    assert_eq!(identities[0].get("ordinal").map(|n| n.to_text()), Some("2".to_string()));
    assert_eq!(identities[0].to_text(), parse(IDENTITY).to_text());
    let texts = |v: &Vec<Json>| v.iter().map(|i| i.to_text()).collect::<Vec<String>>();
    let again = identities_from_body(&body).unwrap();
    assert_eq!(texts(&again), texts(&identities));
    let from_value = identities_from_response(parse(&body));
    assert_eq!(texts(&from_value), texts(&identities));
}

#[test]
fn deletion_addresses_are_built_from_the_identity() {
    let identity = parse(IDENTITY);
    assert_eq!(
        identity_deletion_url("http://127.0.0.1:8080", "accountID", &identity),
        "http://127.0.0.1:8080/api/v4/accounts/accountID/identities/d2c68f36-fb4e-4606-b831-617f7ab06094?eTag=2"
    );
    assert_eq!(
        picture_deletion_url("http://127.0.0.1:8080", "accountID", &identity),
        "http://127.0.0.1:8080/api/v4/accounts/accountID/identities/d2c68f36-fb4e-4606-b831-617f7ab06094/picture"
    );
    assert_eq!(
        try_identity_deletion_url("http://127.0.0.1:8080", "accountID", &identity).unwrap(),
        identity_deletion_url("http://127.0.0.1:8080", "accountID", &identity)
    );
    assert_eq!(
        try_picture_deletion_url("http://127.0.0.1:8080", "accountID", &identity).unwrap(),
        picture_deletion_url("http://127.0.0.1:8080", "accountID", &identity)
    );
    assert!(deletion_succeeded(200));
    assert!(!deletion_succeeded(204));
    assert!(!deletion_succeeded(412));
}

#[test]
fn responses_without_an_identity_list_are_refused() {
    assert_eq!(try_identities_from_body("{}").err(), Some(BodyError::MissingIdentities));
    assert_eq!(try_identities_from_body("[1]").err(), Some(BodyError::MissingIdentities));
    assert_eq!(try_identities_from_body(r#"{"error":"unauthorized"}"#).err(), Some(BodyError::MissingIdentities));
    assert_eq!(try_identities_from_body(r#"{"identities": {}}"#).err(), Some(BodyError::IdentitiesNotArray));
    assert_eq!(try_identities_from_body(r#"{"identities": "x"}"#).err(), Some(BodyError::IdentitiesNotArray));
    assert!(try_identities_from_body(r#"{"identities": []}"#).unwrap().is_empty());
    assert_eq!(try_identities_from_body("").err(), Some(BodyError::NotJson));
    assert_eq!(try_identities_from_body("{\"identities\": [").err(), Some(BodyError::NotJson));
    assert_eq!(identities_from_body("not json").err(), Some(BodyError::NotJson));
}

#[test]
fn identities_without_id_or_etag_cannot_be_deleted() {
    let no_id = parse(r#"{"eTag": "1"}"#);
    let number_id = parse(r#"{"identityId": 5, "eTag": "1"}"#);
    let no_etag = parse(r#"{"identityId": "x"}"#);
    let number_etag = parse(r#"{"identityId": "x", "eTag": 2}"#);
    assert_eq!(try_identity_deletion_url("b", "a", &no_id).err(), Some(IdentityError::MissingIdentityId));
    assert_eq!(try_identity_deletion_url("b", "a", &number_id).err(), Some(IdentityError::MissingIdentityId));
    assert_eq!(try_identity_deletion_url("b", "a", &no_etag).err(), Some(IdentityError::MissingEtag));
    assert_eq!(try_identity_deletion_url("b", "a", &number_etag).err(), Some(IdentityError::MissingEtag));
    assert_eq!(try_picture_deletion_url("b", "a", &no_etag).unwrap(), "b/api/v4/accounts/a/identities/x/picture");
    assert_eq!(try_picture_deletion_url("b", "a", &no_id).err(), Some(IdentityError::MissingIdentityId));
    assert_eq!(try_picture_deletion_url("b", "a", &number_id).err(), Some(IdentityError::MissingIdentityId));
}
