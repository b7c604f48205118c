use scim_proto::attr::ScimAttr;
use scim_proto::error::ScimError;
use scim_proto::json::{entry_from_json_text, entry_to_json_text, wire_from_json_text,
    wire_to_json_text};
use scim_proto::wire::WireValue;

fn rfc7643_user() -> &'static str {
    r#"{
        "schemas": ["urn:ietf:params:scim:schemas:core:2.0:User"],
        "id": "2819c223-7f76-453a-919d-413861904646",
        "externalId": "701984",
        "userName": "bjensen@example.com",
        "name": {
            "formatted": "Ms. Barbara J Jensen, III",
            "familyName": "Jensen",
            "givenName": "Barbara",
            "middleName": "Jane",
            "honorificPrefix": "Ms.",
            "honorificSuffix": "III"
        },
        "displayName": "Babs Jensen",
        "nickName": "Babs",
        "profileUrl": "https://login.example.com/bjensen",
        "emails": [
            {"value": "bjensen@example.com", "type": "work", "primary": true},
            {"value": "babs@jensen.org", "type": "home"}
        ],
        "addresses": [
            {
                "type": "work",
                "streetAddress": "100 Universal City Plaza",
                "locality": "Hollywood",
                "region": "CA",
                "postalCode": "91608",
                "country": "USA",
                "formatted": "100 Universal City Plaza Hollywood, CA 91608 USA",
                "primary": true
            }
        ],
        "phoneNumbers": [{"value": "555-555-5555", "type": "work"}],
        "ims": [{"value": "someaimhandle", "type": "aim"}],
        "photos": [
            {"value": "https://photos.example.com/profilephoto/72930000000Ccne/F",
             "type": "photo"}
        ],
        "userType": "Employee",
        "title": "Tour Guide",
        "preferredLanguage": "en-US",
        "locale": "en-US",
        "timezone": "America/Los_Angeles",
        "active": true,
        "groups": [
            {"value": "e9e30dba-f08f-4109-8486-d5c6a331660a",
             "$ref": "https://example.com/v2/Groups/e9e30dba-f08f-4109-8486-d5c6a331660a",
             "display": "Tour Guides"}
        ],
        "roles": [{"value": "admin"}],
        "entitlements": [{"value": "full-access"}],
        "x509Certificates": [{"value": "QmFzZTY0IGRhdGE"}],
        "meta": {
            "resourceType": "User",
            "created": "2010-01-23T04:56:22Z",
            "lastModified": "2011-05-13T04:42:34Z",
            "location": "https://example.com/v2/Users/2819c223-7f76-453a-919d-413861904646",
            "version": "W-a330bc54f0671c9"
        }
    }"#
}

#[test]
fn parse_scim_entry() {
    let u = entry_from_json_text(rfc7643_user()).expect("Failed to parse RFC7643_USER");
    assert_eq!(u.id, "2819c223-7f76-453a-919d-413861904646");
    assert_eq!(u.external_id, Some("701984".to_string()));
    assert_eq!(u.schemas, vec!["urn:ietf:params:scim:schemas:core:2.0:User".to_string()]);
    let meta = u.meta.clone().expect("meta should be present");
    assert_eq!(meta.created, "2010-01-23T04:56:22Z");
    let s = entry_to_json_text(u);
    assert!(entry_from_json_text(&s).is_ok());
}

#[test]
fn entry_round_trips_as_text() {
    let text = "{\"active\":true,\"id\":\"2819c223-7f76-453a-919d-413861904646\",\
        \"schemas\":[\"urn:ietf:params:scim:schemas:core:2.0:User\"],\
        \"userName\":\"bjensen\"}";
    let e = entry_from_json_text(text).expect("entry should parse");
    assert_eq!(entry_to_json_text(e), text);
}

#[test]
fn classification_empty_array_is_rejected() {
    let v = wire_from_json_text("[]").expect("valid json");
    assert!(matches!(ScimAttr::try_from_wire(v), Err(ScimError::EmptyMultiValue)));
}

#[test]
fn classification_nested_array_is_rejected() {
    let v = wire_from_json_text("[[1,2],[3]]").expect("valid json");
    assert!(matches!(ScimAttr::try_from_wire(v), Err(ScimError::NestedMultiValue)));
}

#[test]
fn classification_object_array_is_multi_complex() {
    let v = wire_from_json_text("[{\"a\":1},{\"b\":2}]").expect("valid json");
    match ScimAttr::try_from_wire(v) {
        Ok(a @ ScimAttr::MultiComplex(_)) => assert_eq!(a.len(), 2),
        _ => panic!("expected a multi-valued complex attribute"),
    }
}

#[test]
fn classification_scalar_array_is_multi_simple() {
    let v = wire_from_json_text("[\"a\",\"b\"]").expect("valid json");
    match ScimAttr::try_from_wire(v) {
        Ok(a @ ScimAttr::MultiSimple(_)) => assert_eq!(a.len(), 2),
        _ => panic!("expected a multi-valued simple attribute"),
    }
}

#[test]
fn classification_heterogeneous_arrays_fail_per_element() {
    let v = wire_from_json_text("[{\"a\":1},\"b\"]").expect("valid json");
    assert!(matches!(ScimAttr::try_from_wire(v), Err(ScimError::InconsistentMultiValue)));
    let w = wire_from_json_text("[\"a\",{\"b\":2}]").expect("valid json");
    assert!(matches!(ScimAttr::try_from_wire(w), Err(ScimError::InvalidSingleValue)));
}

#[test]
fn classification_null_is_rejected() {
    let v = wire_from_json_text("null").expect("valid json");
    assert!(matches!(ScimAttr::try_from_wire(v), Err(ScimError::InvalidSingleValue)));
}

#[test]
fn classification_single_shapes() {
    let v = wire_from_json_text("\"hello\"").expect("valid json");
    match ScimAttr::try_from_wire(v) {
        Ok(a @ ScimAttr::SingleSimple(_)) => assert_eq!(a.len(), 1),
        _ => panic!("expected a single simple attribute"),
    }
    let w = wire_from_json_text("{\"a\":true}").expect("valid json");
    match ScimAttr::try_from_wire(w) {
        Ok(a @ ScimAttr::SingleComplex(_)) => assert_eq!(a.len(), 1),
        _ => panic!("expected a single complex attribute"),
    }
}

#[test]
fn attribute_round_trips_exactly() {
    for text in [
        "\"a string\"",
        "true",
        "42",
        "[\"a\",\"b\",\"c\"]",
        "[1,2,3]",
        "{\"a\":1,\"b\":\"x\"}",
        "[{\"a\":1},{\"b\":\"x\",\"c\":false}]",
    ] {
        let v = wire_from_json_text(text).expect("valid json");
        let a = ScimAttr::try_from_wire(v).expect("attribute should classify");
        assert_eq!(wire_to_json_text(a.into_wire()), text);
    }
}

#[test]
fn entry_missing_id_is_rejected() {
    let text = "{\"schemas\":[\"urn:x\"],\"userName\":\"b\"}";
    assert!(matches!(
        entry_from_json_text(text),
        Err(ScimError::MissingRequiredAttribute)
    ));
}

#[test]
fn entry_bad_uuid_is_rejected() {
    let text = "{\"id\":\"not-a-uuid\",\"schemas\":[\"urn:x\"]}";
    assert!(matches!(entry_from_json_text(text), Err(ScimError::InvalidAttribute)));
}

#[test]
fn entry_bad_timestamp_is_rejected() {
    let text = "{\"id\":\"2819c223-7f76-453a-919d-413861904646\",\
        \"meta\":{\"created\":\"yesterday\",\"lastModified\":\"2011-05-13T04:42:34Z\",\
        \"location\":\"https://example.com/x\",\"resourceType\":\"User\",\"version\":\"1\"},\
        \"schemas\":[\"urn:x\"]}";
    assert!(matches!(entry_from_json_text(text), Err(ScimError::InvalidAttribute)));
}

#[test]
fn entry_canonicalizes_uuid_and_timestamps() {
    let text = "{\"id\":\"2819C223-7F76-453A-919D-413861904646\",\
        \"meta\":{\"created\":\"2010-01-23T04:56:22.000+00:00\",\
        \"lastModified\":\"2011-05-13T04:42:34Z\",\
        \"location\":\"HTTPS://EXAMPLE.COM\",\"resourceType\":\"User\",\"version\":\"1\"},\
        \"schemas\":[\"urn:x\"]}";
    let e = entry_from_json_text(text).expect("entry should parse");
    assert_eq!(e.id, "2819c223-7f76-453a-919d-413861904646");
    let meta = e.meta.expect("meta should be present");
    assert_eq!(meta.created, "2010-01-23T04:56:22Z");
    assert_eq!(meta.location, "https://example.com/");
}
