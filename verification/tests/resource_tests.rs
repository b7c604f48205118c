use scim_proto::error::ScimError;
use scim_proto::group::Group;
use scim_proto::json::{entry_from_json_text, entry_to_json_text};
use scim_proto::user::{Locale, Timezone, User};

fn rfc7643_group() -> &'static str {
    r#"{
        "schemas": ["urn:ietf:params:scim:schemas:core:2.0:Group"],
        "id": "e9e30dba-f08f-4109-8486-d5c6a331660a",
        "displayName": "Tour Guides",
        "members": [
            {
                "value": "2819c223-7f76-453a-919d-413861904646",
                "$ref": "https://example.com/v2/Users/2819c223-7f76-453a-919d-413861904646",
                "display": "Babs Jensen"
            },
            {
                "value": "902c246b-6245-4190-8e05-00816be7344a",
                "$ref": "https://example.com/v2/Users/902c246b-6245-4190-8e05-00816be7344a",
                "display": "Mandy Pepperidge"
            }
        ],
        "meta": {
            "resourceType": "Group",
            "created": "2010-01-23T04:56:22Z",
            "lastModified": "2011-05-13T04:42:34Z",
            "location": "https://example.com/v2/Groups/e9e30dba-f08f-4109-8486-d5c6a331660a",
            "version": "W-3694e05e9dff592"
        }
    }"#
}

fn user_text() -> &'static str {
    r#"{
        "schemas": ["urn:ietf:params:scim:schemas:core:2.0:User"],
        "id": "2819c223-7f76-453a-919d-413861904646",
        "userName": "bjensen@example.com",
        "displayName": "Babs Jensen",
        "preferredLanguage": "en-US",
        "locale": "en-US",
        "timezone": "America/Los_Angeles",
        "active": true,
        "emails": [
            {"value": "bjensen@example.com", "type": "work", "primary": true}
        ],
        "photos": [
            {"value": "https://photos.example.com/profilephoto/72930000000Ccne/F",
             "type": "photo"}
        ],
        "x509Certificates": [{"value": "QmFzZTY0IGRhdGE"}]
    }"#
}

#[test]
fn parse_user() {
    let e = entry_from_json_text(user_text()).expect("Failed to parse RFC7643_USER");
    let u = User::try_from_entry(e).expect("Failed to lift RFC7643_USER");
    assert_eq!(u.user_name, "bjensen@example.com");
    assert_eq!(u.display_name, Some("Babs Jensen".to_string()));
    assert!(u.active);
    assert_eq!(u.preferred_language, Some(Locale::en_US));
    assert_eq!(u.locale, Some(Locale::en_US));
    assert_eq!(u.timezone, Some(Timezone::America_Los_Angeles));
    assert_eq!(u.emails.len(), 1);
    assert_eq!(u.emails[0].value, "bjensen@example.com");
    assert_eq!(u.emails[0].primary, Some(true));
    assert_eq!(u.photos.len(), 1);
    assert_eq!(u.x509certificates[0].value, "QmFzZTY0IGRhdGE");
    let s = entry_to_json_text(u.into_entry());
    assert!(entry_from_json_text(&s).is_ok());
}

#[test]
fn parse_group() {
    let e = entry_from_json_text(rfc7643_group()).expect("Failed to parse RFC7643_GROUP");
    let g = Group::try_from_entry(e).expect("Failed to lift RFC7643_GROUP");
    assert_eq!(g.display_name, "Tour Guides");
    assert_eq!(g.members.len(), 2);
    assert_eq!(g.members[0].display, "Babs Jensen");
    assert_eq!(g.members[0].value, "2819c223-7f76-453a-919d-413861904646");
    let s = entry_to_json_text(g.into_entry());
    assert!(entry_from_json_text(&s).is_ok());
}

#[test]
fn group_round_trips_as_text() {
    let text = "{\"displayName\":\"Tour Guides\",\
        \"id\":\"e9e30dba-f08f-4109-8486-d5c6a331660a\",\
        \"members\":[{\"$ref\":\"https://example.com/v2/Users/2819c223-7f76-453a-919d-413861904646\",\
        \"display\":\"Babs Jensen\",\"value\":\"2819c223-7f76-453a-919d-413861904646\"}],\
        \"schemas\":[\"urn:ietf:params:scim:schemas:core:2.0:Group\"]}";
    let e = entry_from_json_text(text).expect("entry should parse");
    let g = Group::try_from_entry(e).expect("group should lift");
    assert_eq!(entry_to_json_text(g.into_entry()), text);
}

#[test]
fn user_round_trips_as_text() {
    let text = "{\"active\":true,\"id\":\"2819c223-7f76-453a-919d-413861904646\",\
        \"schemas\":[\"urn:ietf:params:scim:schemas:core:2.0:User\"],\
        \"timezone\":\"America/Los_Angeles\",\"userName\":\"bjensen\"}";
    let e = entry_from_json_text(text).expect("entry should parse");
    let u = User::try_from_entry(e).expect("user should lift");
    assert_eq!(entry_to_json_text(u.into_entry()), text);
}

#[test]
fn missing_schema_is_always_rejected() {
    let text = "{\"active\":true,\"displayName\":\"Tour Guides\",\
        \"id\":\"2819c223-7f76-453a-919d-413861904646\",\
        \"schemas\":[\"urn:ietf:params:scim:schemas:core:2.0:Group\"],\
        \"userName\":\"bjensen\"}";
    let e = entry_from_json_text(text).expect("entry should parse");
    assert!(matches!(User::try_from_entry(e), Err(ScimError::EntryMissingSchema)));
    let text2 = text.replace("Group", "User");
    let e2 = entry_from_json_text(&text2).expect("entry should parse");
    assert!(matches!(Group::try_from_entry(e2), Err(ScimError::EntryMissingSchema)));
}

#[test]
fn missing_required_field_is_rejected() {
    let no_user_name = "{\"active\":true,\"id\":\"2819c223-7f76-453a-919d-413861904646\",\
        \"schemas\":[\"urn:ietf:params:scim:schemas:core:2.0:User\"]}";
    let e = entry_from_json_text(no_user_name).expect("entry should parse");
    assert!(matches!(
        User::try_from_entry(e),
        Err(ScimError::MissingRequiredAttribute)
    ));
    let no_active = "{\"id\":\"2819c223-7f76-453a-919d-413861904646\",\
        \"schemas\":[\"urn:ietf:params:scim:schemas:core:2.0:User\"],\
        \"userName\":\"bjensen\"}";
    let e2 = entry_from_json_text(no_active).expect("entry should parse");
    assert!(matches!(
        User::try_from_entry(e2),
        Err(ScimError::MissingRequiredAttribute)
    ));
    let no_display = "{\"id\":\"e9e30dba-f08f-4109-8486-d5c6a331660a\",\
        \"schemas\":[\"urn:ietf:params:scim:schemas:core:2.0:Group\"]}";
    let e3 = entry_from_json_text(no_display).expect("entry should parse");
    assert!(matches!(
        Group::try_from_entry(e3),
        Err(ScimError::MissingRequiredAttribute)
    ));
}

#[test]
fn omitted_optional_fields_default() {
    let text = "{\"active\":false,\"id\":\"2819c223-7f76-453a-919d-413861904646\",\
        \"schemas\":[\"urn:ietf:params:scim:schemas:core:2.0:User\"],\
        \"userName\":\"bjensen\"}";
    let e = entry_from_json_text(text).expect("entry should parse");
    let u = User::try_from_entry(e).expect("user should lift");
    assert!(u.display_name.is_none());
    assert!(u.name.is_none());
    assert!(u.locale.is_none());
    assert!(u.emails.is_empty());
    assert!(u.groups.is_empty());
    let gtext = "{\"displayName\":\"g\",\"id\":\"e9e30dba-f08f-4109-8486-d5c6a331660a\",\
        \"schemas\":[\"urn:ietf:params:scim:schemas:core:2.0:Group\"]}";
    let e2 = entry_from_json_text(gtext).expect("entry should parse");
    let g = Group::try_from_entry(e2).expect("group should lift");
    assert!(g.members.is_empty());
}

#[test]
fn wrong_attribute_shape_is_rejected() {
    let text = "{\"active\":true,\"id\":\"2819c223-7f76-453a-919d-413861904646\",\
        \"schemas\":[\"urn:ietf:params:scim:schemas:core:2.0:User\"],\"userName\":42}";
    let e = entry_from_json_text(text).expect("entry should parse");
    assert!(matches!(User::try_from_entry(e), Err(ScimError::InvalidAttribute)));
}

#[test]
fn unknown_locale_and_timezone_are_rejected() {
    let bad_locale = "{\"active\":true,\"id\":\"2819c223-7f76-453a-919d-413861904646\",\
        \"locale\":\"tlh\",\"schemas\":[\"urn:ietf:params:scim:schemas:core:2.0:User\"],\
        \"userName\":\"bjensen\"}";
    let e = entry_from_json_text(bad_locale).expect("entry should parse");
    assert!(matches!(User::try_from_entry(e), Err(ScimError::UnknownLocale)));
    let bad_tz = "{\"active\":true,\"id\":\"2819c223-7f76-453a-919d-413861904646\",\
        \"schemas\":[\"urn:ietf:params:scim:schemas:core:2.0:User\"],\
        \"timezone\":\"Mars/Crater\",\"userName\":\"bjensen\"}";
    let e2 = entry_from_json_text(bad_tz).expect("entry should parse");
    assert!(matches!(User::try_from_entry(e2), Err(ScimError::UnknownTimezone)));
}

#[test]
fn recognized_locales_round_trip_through_display_form() {
    for l in [Locale::en, Locale::en_AU, Locale::en_US, Locale::de, Locale::de_DE] {
        assert_eq!(Locale::try_from_str(l.as_str()), Ok(l));
    }
    for t in [Timezone::Australia_Brisbane, Timezone::America_Los_Angeles] {
        assert_eq!(Timezone::try_from_str(t.as_str()), Ok(t));
    }
    assert!(matches!(Locale::try_from_str("xx"), Err(ScimError::UnknownLocale)));
    assert!(matches!(Timezone::try_from_str("xx"), Err(ScimError::UnknownTimezone)));
}

#[test]
fn canonical_forms_differ_from_loose_input() {
    let text = "{\"active\":true,\"id\":\"2819C223-7F76-453A-919D-413861904646\",\
        \"photos\":[{\"value\":\"HTTP://PHOTOS.EXAMPLE.COM\"}],\
        \"profileUrl\":\"HTTPS://LOGIN.EXAMPLE.COM\",\
        \"schemas\":[\"urn:ietf:params:scim:schemas:core:2.0:User\"],\
        \"userName\":\"bjensen\",\
        \"x509Certificates\":[{\"value\":\"QmFzZTY0IGRhdGE=\"}]}";
    let e = entry_from_json_text(text).expect("entry should parse");
    let u = User::try_from_entry(e).expect("user should lift");
    assert_eq!(u.id, "2819c223-7f76-453a-919d-413861904646");
    assert_eq!(u.profile_url, Some("https://login.example.com/".to_string()));
    assert_eq!(u.photos[0].value, "http://photos.example.com/");
    assert_eq!(u.x509certificates[0].value, "QmFzZTY0IGRhdGE");
}
