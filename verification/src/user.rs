//! The User resource and its nested shapes: name components, generic
//! multi-valued attributes, photos, postal addresses, group-membership
//! references, binary certificates, and the closed locale and timezone
//! enumerations.

use vstd::prelude::*;

use crate::attr::{ScimAttr, ScimComplexAttr, SpecAttr, SpecSimpleAttr};
use crate::attrmap::AttrMap;
use crate::canon::{b64_canon, canon_b64, canon_url, url_canon, uuid_canon};
use crate::entry::{ScimEntry, ScimMeta, SpecEntry, SpecMeta};
use crate::error::ScimError;
use crate::extract::{
    entry_attrs_wf, get_option_bool, get_option_multi_complex, get_option_single_complex,
    get_option_single_string, get_option_single_url, get_option_string, get_option_url,
    get_single_bool, get_single_string, get_string, get_url, get_uuid, take_opt_bool,
    take_opt_multi, take_opt_scomplex, take_opt_sstring, take_opt_string, take_opt_surl,
    take_opt_url, take_req_sbool, take_req_sstring, take_req_string, take_req_url, take_req_uuid,
};
use crate::group::{has_schema, spec_has_schema};
use crate::strutil::str_eq;

verus! {

broadcast use {vstd::map::group_map_axioms, vstd::set::group_set_axioms, vstd::seq::group_seq_axioms};

/// The schema URN owned by the User resource type.
pub open spec fn spec_user_urn() -> Seq<char> {
    "urn:ietf:params:scim:schemas:core:2.0:User"@
}

/// The closed set of recognized locale tags. Adding a value is a code
/// change, not a configuration change.
#[allow(non_camel_case_types)]
#[derive(Debug, Clone, Copy, PartialEq, Eq, Structural)]
pub enum Locale {
    en,
    en_AU,
    en_US,
    de,
    de_DE,
}

/// The locale named by a text, if the text is in the recognized table.
pub open spec fn spec_locale_of(s: Seq<char>) -> Option<Locale> {
    if s == "en"@ {
        Some(Locale::en)
    } else if s == "en-AU"@ {
        Some(Locale::en_AU)
    } else if s == "en-US"@ {
        Some(Locale::en_US)
    } else if s == "de"@ {
        Some(Locale::de)
    } else if s == "de-DE"@ {
        Some(Locale::de_DE)
    } else {
        None
    }
}

/// The display text of a locale.
pub open spec fn spec_locale_str(l: Locale) -> Seq<char> {
    match l {
        Locale::en => "en"@,
        Locale::en_AU => "en-AU"@,
        Locale::en_US => "en-US"@,
        Locale::de => "de"@,
        Locale::de_DE => "de-DE"@,
    }
}

impl Locale {
    /// Look a locale text up in the closed table.
    pub fn try_from_str(s: &str) -> (r: Result<Locale, ScimError>)
        ensures
            match r {
                Ok(l) => spec_locale_of(s@) == Some(l),
                Err(e) => spec_locale_of(s@) is None && e == ScimError::UnknownLocale,
            },
    {
        if str_eq(s, "en") {
            Ok(Locale::en)
        } else if str_eq(s, "en-AU") {
            Ok(Locale::en_AU)
        } else if str_eq(s, "en-US") {
            Ok(Locale::en_US)
        } else if str_eq(s, "de") {
            Ok(Locale::de)
        } else if str_eq(s, "de-DE") {
            Ok(Locale::de_DE)
        } else {
            Err(ScimError::UnknownLocale)
        }
    }

    /// The display text of this locale.
    pub fn as_str(&self) -> (r: &'static str)
        ensures
            r@ == spec_locale_str(*self),
    {
        match self {
            Locale::en => "en",
            Locale::en_AU => "en-AU",
            Locale::en_US => "en-US",
            Locale::de => "de",
            Locale::de_DE => "de-DE",
        }
    }
}

/// A recognized locale's display text looks itself up: the closed table
/// round-trips through its display form unchanged.
pub proof fn lemma_locale_round_trip(l: Locale)
    ensures
        spec_locale_of(spec_locale_str(l)) == Some(l),
{
    reveal_strlit("en");
    reveal_strlit("en-AU");
    reveal_strlit("en-US");
    reveal_strlit("de");
    reveal_strlit("de-DE");
    assert("en"@.len() == 2 && "en-AU"@.len() == 5 && "en-US"@.len() == 5);
    assert("de"@.len() == 2 && "de-DE"@.len() == 5);
    assert("en"@[0] == 'e' && "de"@[0] == 'd');
    assert("en-AU"@[3] == 'A' && "en-US"@[3] == 'U' && "de-DE"@[0] == 'd');
    assert("en-AU"@[0] == 'e' && "en-US"@[0] == 'e');
}

/// The closed set of recognized timezone identifiers.
#[allow(non_camel_case_types)]
#[derive(Debug, Clone, Copy, PartialEq, Eq, Structural)]
pub enum Timezone {
    Australia_Brisbane,
    America_Los_Angeles,
}

/// The timezone named by a text, if the text is in the recognized table.
pub open spec fn spec_timezone_of(s: Seq<char>) -> Option<Timezone> {
    if s == "Australia/Brisbane"@ {
        Some(Timezone::Australia_Brisbane)
    } else if s == "America/Los_Angeles"@ {
        Some(Timezone::America_Los_Angeles)
    } else {
        None
    }
}

/// The display text of a timezone.
pub open spec fn spec_timezone_str(t: Timezone) -> Seq<char> {
    match t {
        Timezone::Australia_Brisbane => "Australia/Brisbane"@,
        Timezone::America_Los_Angeles => "America/Los_Angeles"@,
    }
}

impl Timezone {
    /// Look a timezone text up in the closed table.
    pub fn try_from_str(s: &str) -> (r: Result<Timezone, ScimError>)
        ensures
            match r {
                Ok(t) => spec_timezone_of(s@) == Some(t),
                Err(e) => spec_timezone_of(s@) is None && e == ScimError::UnknownTimezone,
            },
    {
        if str_eq(s, "Australia/Brisbane") {
            Ok(Timezone::Australia_Brisbane)
        } else if str_eq(s, "America/Los_Angeles") {
            Ok(Timezone::America_Los_Angeles)
        } else {
            Err(ScimError::UnknownTimezone)
        }
    }

    /// The display text of this timezone.
    pub fn as_str(&self) -> (r: &'static str)
        ensures
            r@ == spec_timezone_str(*self),
    {
        match self {
            Timezone::Australia_Brisbane => "Australia/Brisbane",
            Timezone::America_Los_Angeles => "America/Los_Angeles",
        }
    }
}

/// A recognized timezone's display text looks itself up: the closed table
/// round-trips through its display form unchanged.
pub proof fn lemma_timezone_round_trip(t: Timezone)
    ensures
        spec_timezone_of(spec_timezone_str(t)) == Some(t),
{
    reveal_strlit("Australia/Brisbane");
    reveal_strlit("America/Los_Angeles");
    assert("Australia/Brisbane"@.len() == 18 && "America/Los_Angeles"@.len() == 19);
}

/// View of the components of a user's name.
#[verifier::ext_equal]
pub struct SpecName {
    pub formatted: Option<Seq<char>>,
    pub family_name: Option<Seq<char>>,
    pub given_name: Option<Seq<char>>,
    pub middle_name: Option<Seq<char>>,
    pub honorific_prefix: Option<Seq<char>>,
    pub honorific_suffix: Option<Seq<char>>,
}

/// The components of a user's name; every part is optional.
#[derive(Debug, Clone, PartialEq, Eq)]
pub struct Name {
    pub formatted: Option<String>,
    pub family_name: Option<String>,
    pub given_name: Option<String>,
    pub middle_name: Option<String>,
    pub honorific_prefix: Option<String>,
    pub honorific_suffix: Option<String>,
}

impl DeepView for Name {
    type V = SpecName;

    open spec fn deep_view(&self) -> SpecName {
        SpecName {
            formatted: self.formatted.deep_view(),
            family_name: self.family_name.deep_view(),
            given_name: self.given_name.deep_view(),
            middle_name: self.middle_name.deep_view(),
            honorific_prefix: self.honorific_prefix.deep_view(),
            honorific_suffix: self.honorific_suffix.deep_view(),
        }
    }
}

/// Decode of a complex attribute as name components.
pub open spec fn spec_name_decode(m0: Map<Seq<char>, SpecSimpleAttr>) -> Result<
    SpecName,
    ScimError,
> {
    let r1 = take_opt_string(m0, "formatted"@);
    let m1 = m0.remove("formatted"@);
    let r2 = take_opt_string(m1, "familyName"@);
    let m2 = m1.remove("familyName"@);
    let r3 = take_opt_string(m2, "givenName"@);
    let m3 = m2.remove("givenName"@);
    let r4 = take_opt_string(m3, "middleName"@);
    let m4 = m3.remove("middleName"@);
    let r5 = take_opt_string(m4, "honorificPrefix"@);
    let m5 = m4.remove("honorificPrefix"@);
    let r6 = take_opt_string(m5, "honorificSuffix"@);
    if r1 is Err {
        Err(r1->Err_0)
    } else if r2 is Err {
        Err(r2->Err_0)
    } else if r3 is Err {
        Err(r3->Err_0)
    } else if r4 is Err {
        Err(r4->Err_0)
    } else if r5 is Err {
        Err(r5->Err_0)
    } else if r6 is Err {
        Err(r6->Err_0)
    } else {
        Ok(SpecName {
            formatted: r1->Ok_0,
            family_name: r2->Ok_0,
            given_name: r3->Ok_0,
            middle_name: r4->Ok_0,
            honorific_prefix: r5->Ok_0,
            honorific_suffix: r6->Ok_0,
        })
    }
}

/// Insert an optional string value under a key, or leave the map as it is.
pub open spec fn opt_insert(
    m: Map<Seq<char>, SpecSimpleAttr>,
    k: Seq<char>,
    v: Option<Seq<char>>,
) -> Map<Seq<char>, SpecSimpleAttr> {
    match v {
        Some(s) => m.insert(k, SpecSimpleAttr::String(s)),
        None => m,
    }
}

/// Insert an optional boolean value under a key, or leave the map as it
/// is.
pub open spec fn opt_insert_bool(
    m: Map<Seq<char>, SpecSimpleAttr>,
    k: Seq<char>,
    v: Option<bool>,
) -> Map<Seq<char>, SpecSimpleAttr> {
    match v {
        Some(b) => m.insert(k, SpecSimpleAttr::Bool(b)),
        None => m,
    }
}

/// Encode of name components back to a complex attribute map: absent parts
/// are omitted entirely.
pub open spec fn spec_name_encode(d: SpecName) -> Map<Seq<char>, SpecSimpleAttr> {
    let m1 = opt_insert(Map::empty(), "formatted"@, d.formatted);
    let m2 = opt_insert(m1, "familyName"@, d.family_name);
    let m3 = opt_insert(m2, "givenName"@, d.given_name);
    let m4 = opt_insert(m3, "middleName"@, d.middle_name);
    let m5 = opt_insert(m4, "honorificPrefix"@, d.honorific_prefix);
    opt_insert(m5, "honorificSuffix"@, d.honorific_suffix)
}

impl Name {
    /// Decode a complex attribute as name components.
    pub fn try_from_complex(c: ScimComplexAttr) -> (r: Result<Name, ScimError>)
        requires
            c.wf(),
        ensures
            match r {
                Ok(n) => spec_name_decode(c.deep_view()) == Ok::<_, ScimError>(n.deep_view()),
                Err(e) => spec_name_decode(c.deep_view()) == Err::<SpecName, _>(e),
            },
    {
        let mut attrs = c.attrs;
        let formatted = match get_option_string(&mut attrs, "formatted") {
            Ok(v) => v,
            Err(e) => {
                return Err(e);
            },
        };
        let family_name = match get_option_string(&mut attrs, "familyName") {
            Ok(v) => v,
            Err(e) => {
                return Err(e);
            },
        };
        let given_name = match get_option_string(&mut attrs, "givenName") {
            Ok(v) => v,
            Err(e) => {
                return Err(e);
            },
        };
        let middle_name = match get_option_string(&mut attrs, "middleName") {
            Ok(v) => v,
            Err(e) => {
                return Err(e);
            },
        };
        let honorific_prefix = match get_option_string(&mut attrs, "honorificPrefix") {
            Ok(v) => v,
            Err(e) => {
                return Err(e);
            },
        };
        let honorific_suffix = match get_option_string(&mut attrs, "honorificSuffix") {
            Ok(v) => v,
            Err(e) => {
                return Err(e);
            },
        };
        Ok(Name {
            formatted,
            family_name,
            given_name,
            middle_name,
            honorific_prefix,
            honorific_suffix,
        })
    }

    /// Encode these name components as a complex attribute.
    pub fn into_complex(self) -> (r: ScimComplexAttr)
        ensures
            r.deep_view() == spec_name_encode(self.deep_view()),
            r.wf(),
    {
        let ghost d = self.deep_view();
        let mut attrs = AttrMap::<crate::attr::ScimSimpleAttr>::new();
        if let Some(v) = self.formatted {
            attrs.insert(String::from_str("formatted"), crate::attr::ScimSimpleAttr::String(v));
        }
        proof {
            assert(attrs@ == opt_insert(Map::empty(), "formatted"@, d.formatted));
        }
        if let Some(v) = self.family_name {
            attrs.insert(String::from_str("familyName"), crate::attr::ScimSimpleAttr::String(v));
        }
        if let Some(v) = self.given_name {
            attrs.insert(String::from_str("givenName"), crate::attr::ScimSimpleAttr::String(v));
        }
        if let Some(v) = self.middle_name {
            attrs.insert(String::from_str("middleName"), crate::attr::ScimSimpleAttr::String(v));
        }
        if let Some(v) = self.honorific_prefix {
            attrs.insert(
                String::from_str("honorificPrefix"),
                crate::attr::ScimSimpleAttr::String(v),
            );
        }
        if let Some(v) = self.honorific_suffix {
            attrs.insert(
                String::from_str("honorificSuffix"),
                crate::attr::ScimSimpleAttr::String(v),
            );
        }
        ScimComplexAttr { attrs }
    }
}

/// View of one generic multi-valued attribute element.
#[verifier::ext_equal]
pub struct SpecMultiValue {
    pub type_: Option<Seq<char>>,
    pub primary: Option<bool>,
    pub display: Option<Seq<char>>,
    pub ref_: Option<Seq<char>>,
    pub value: Seq<char>,
}

/// One element of a generic multi-valued attribute: an optional type
/// label, primary flag, display name and hyperlink, and a required value.
#[derive(Debug, Clone, PartialEq, Eq)]
pub struct MultiValueAttr {
    pub type_: Option<String>,
    pub primary: Option<bool>,
    pub display: Option<String>,
    pub ref_: Option<String>,
    pub value: String,
}

impl DeepView for MultiValueAttr {
    type V = SpecMultiValue;

    open spec fn deep_view(&self) -> SpecMultiValue {
        SpecMultiValue {
            type_: self.type_.deep_view(),
            primary: self.primary,
            display: self.display.deep_view(),
            ref_: self.ref_.deep_view(),
            value: self.value@,
        }
    }
}

/// Decode of a complex attribute as a multi-valued attribute element.
pub open spec fn spec_mva_decode(m0: Map<Seq<char>, SpecSimpleAttr>) -> Result<
    SpecMultiValue,
    ScimError,
> {
    let r1 = take_opt_string(m0, "type"@);
    let m1 = m0.remove("type"@);
    let r2 = take_opt_bool(m1, "primary"@);
    let m2 = m1.remove("primary"@);
    let r3 = take_opt_string(m2, "display"@);
    let m3 = m2.remove("display"@);
    let r4 = take_req_string(m3, "value"@);
    let m4 = m3.remove("value"@);
    let r5 = take_opt_url(m4, "$ref"@);
    if r1 is Err {
        Err(r1->Err_0)
    } else if r2 is Err {
        Err(r2->Err_0)
    } else if r3 is Err {
        Err(r3->Err_0)
    } else if r4 is Err {
        Err(r4->Err_0)
    } else if r5 is Err {
        Err(r5->Err_0)
    } else {
        Ok(SpecMultiValue {
            type_: r1->Ok_0,
            primary: r2->Ok_0,
            display: r3->Ok_0,
            ref_: r5->Ok_0,
            value: r4->Ok_0,
        })
    }
}

/// Encode of a multi-valued attribute element back to a complex attribute
/// map: absent optional parts are omitted entirely.
pub open spec fn spec_mva_encode(d: SpecMultiValue) -> Map<Seq<char>, SpecSimpleAttr> {
    let m1 = opt_insert(Map::empty(), "type"@, d.type_);
    let m2 = opt_insert_bool(m1, "primary"@, d.primary);
    let m3 = opt_insert(m2, "display"@, d.display);
    let m4 = opt_insert(m3, "$ref"@, d.ref_);
    m4.insert("value"@, SpecSimpleAttr::String(d.value))
}

impl MultiValueAttr {
    /// Well-formedness: the hyperlink, when present, is canonical.
    pub open spec fn wf(&self) -> bool {
        match self.ref_ {
            Some(u) => url_canon(u@) == Some(u@),
            None => true,
        }
    }

    /// Decode a complex attribute as a multi-valued attribute element.
    pub fn try_from_complex(c: ScimComplexAttr) -> (r: Result<MultiValueAttr, ScimError>)
        requires
            c.wf(),
        ensures
            match r {
                Ok(v) => spec_mva_decode(c.deep_view()) == Ok::<_, ScimError>(v.deep_view())
                    && v.wf(),
                Err(e) => spec_mva_decode(c.deep_view()) == Err::<SpecMultiValue, _>(e),
            },
    {
        let mut attrs = c.attrs;
        let type_ = match get_option_string(&mut attrs, "type") {
            Ok(v) => v,
            Err(e) => {
                return Err(e);
            },
        };
        let primary = match get_option_bool(&mut attrs, "primary") {
            Ok(v) => v,
            Err(e) => {
                return Err(e);
            },
        };
        let display = match get_option_string(&mut attrs, "display") {
            Ok(v) => v,
            Err(e) => {
                return Err(e);
            },
        };
        let value = match get_string(&mut attrs, "value") {
            Ok(v) => v,
            Err(e) => {
                return Err(e);
            },
        };
        let ref_ = match get_option_url(&mut attrs, "$ref") {
            Ok(v) => v,
            Err(e) => {
                return Err(e);
            },
        };
        Ok(MultiValueAttr { type_, primary, display, ref_, value })
    }

    /// Encode this multi-valued attribute element as a complex attribute.
    pub fn into_complex(self) -> (r: ScimComplexAttr)
        ensures
            r.deep_view() == spec_mva_encode(self.deep_view()),
            r.wf(),
    {
        let mut attrs = AttrMap::<crate::attr::ScimSimpleAttr>::new();
        if let Some(v) = self.type_ {
            attrs.insert(String::from_str("type"), crate::attr::ScimSimpleAttr::String(v));
        }
        if let Some(v) = self.primary {
            attrs.insert(String::from_str("primary"), crate::attr::ScimSimpleAttr::Bool(v));
        }
        if let Some(v) = self.display {
            attrs.insert(String::from_str("display"), crate::attr::ScimSimpleAttr::String(v));
        }
        if let Some(v) = self.ref_ {
            attrs.insert(String::from_str("$ref"), crate::attr::ScimSimpleAttr::String(v));
        }
        attrs.insert(String::from_str("value"), crate::attr::ScimSimpleAttr::String(self.value));
        ScimComplexAttr { attrs }
    }
}

/// View of one photo reference.
#[verifier::ext_equal]
pub struct SpecPhoto {
    pub type_: Option<Seq<char>>,
    pub primary: Option<bool>,
    pub display: Option<Seq<char>>,
    pub ref_: Option<Seq<char>>,
    pub value: Seq<char>,
}

/// One photo reference: shaped as a multi-valued attribute element whose
/// value must itself be a URI (kept canonical).
#[derive(Debug, Clone, PartialEq, Eq)]
pub struct Photo {
    pub type_: Option<String>,
    pub primary: Option<bool>,
    pub display: Option<String>,
    pub ref_: Option<String>,
    pub value: String,
}

impl DeepView for Photo {
    type V = SpecPhoto;

    open spec fn deep_view(&self) -> SpecPhoto {
        SpecPhoto {
            type_: self.type_.deep_view(),
            primary: self.primary,
            display: self.display.deep_view(),
            ref_: self.ref_.deep_view(),
            value: self.value@,
        }
    }
}

/// Decode of a complex attribute as a photo: the element decode, then the
/// value reparsed as a URI.
pub open spec fn spec_photo_decode(m0: Map<Seq<char>, SpecSimpleAttr>) -> Result<
    SpecPhoto,
    ScimError,
> {
    match spec_mva_decode(m0) {
        Err(e) => Err(e),
        Ok(d) => match url_canon(d.value) {
            Some(c) => Ok(SpecPhoto {
                type_: d.type_,
                primary: d.primary,
                display: d.display,
                ref_: d.ref_,
                value: c,
            }),
            None => Err(ScimError::InvalidAttribute),
        },
    }
}

/// Encode of a photo back to a complex attribute map.
pub open spec fn spec_photo_encode(d: SpecPhoto) -> Map<Seq<char>, SpecSimpleAttr> {
    spec_mva_encode(SpecMultiValue {
        type_: d.type_,
        primary: d.primary,
        display: d.display,
        ref_: d.ref_,
        value: d.value,
    })
}

impl Photo {
    /// Well-formedness: the value is a canonical URI, and the hyperlink,
    /// when present, is canonical.
    pub open spec fn wf(&self) -> bool {
        &&& url_canon(self.value@) == Some(self.value@)
        &&& match self.ref_ {
            Some(u) => url_canon(u@) == Some(u@),
            None => true,
        }
    }

    /// Decode a complex attribute as a photo.
    pub fn try_from_complex(c: ScimComplexAttr) -> (r: Result<Photo, ScimError>)
        requires
            c.wf(),
        ensures
            match r {
                Ok(p) => spec_photo_decode(c.deep_view()) == Ok::<_, ScimError>(p.deep_view())
                    && p.wf(),
                Err(e) => spec_photo_decode(c.deep_view()) == Err::<SpecPhoto, _>(e),
            },
    {
        let mva = match MultiValueAttr::try_from_complex(c) {
            Ok(v) => v,
            Err(e) => {
                return Err(e);
            },
        };
        let MultiValueAttr { type_, primary, display, ref_, value } = mva;
        let value = match canon_url(value.as_str()) {
            Some(c2) => c2,
            None => {
                return Err(ScimError::InvalidAttribute);
            },
        };
        Ok(Photo { type_, primary, display, ref_, value })
    }

    /// Encode this photo as a complex attribute.
    pub fn into_complex(self) -> (r: ScimComplexAttr)
        ensures
            r.deep_view() == spec_photo_encode(self.deep_view()),
            r.wf(),
    {
        let Photo { type_, primary, display, ref_, value } = self;
        let mva = MultiValueAttr { type_, primary, display, ref_, value };
        mva.into_complex()
    }
}

/// View of one binary certificate.
#[verifier::ext_equal]
pub struct SpecBinary {
    pub type_: Option<Seq<char>>,
    pub primary: Option<bool>,
    pub display: Option<Seq<char>>,
    pub ref_: Option<Seq<char>>,
    pub value: Seq<char>,
}

/// One binary certificate: shaped as a multi-valued attribute element
/// whose value must be base64 data (kept in canonical encoding).
#[derive(Debug, Clone, PartialEq, Eq)]
pub struct Binary {
    pub type_: Option<String>,
    pub primary: Option<bool>,
    pub display: Option<String>,
    pub ref_: Option<String>,
    pub value: String,
}

impl DeepView for Binary {
    type V = SpecBinary;

    open spec fn deep_view(&self) -> SpecBinary {
        SpecBinary {
            type_: self.type_.deep_view(),
            primary: self.primary,
            display: self.display.deep_view(),
            ref_: self.ref_.deep_view(),
            value: self.value@,
        }
    }
}

/// Decode of a complex attribute as a binary certificate: the element
/// decode, then the value reparsed as base64 data.
pub open spec fn spec_binary_decode(m0: Map<Seq<char>, SpecSimpleAttr>) -> Result<
    SpecBinary,
    ScimError,
> {
    match spec_mva_decode(m0) {
        Err(e) => Err(e),
        Ok(d) => match b64_canon(d.value) {
            Some(c) => Ok(SpecBinary {
                type_: d.type_,
                primary: d.primary,
                display: d.display,
                ref_: d.ref_,
                value: c,
            }),
            None => Err(ScimError::InvalidAttribute),
        },
    }
}

/// Encode of a binary certificate back to a complex attribute map.
pub open spec fn spec_binary_encode(d: SpecBinary) -> Map<Seq<char>, SpecSimpleAttr> {
    spec_mva_encode(SpecMultiValue {
        type_: d.type_,
        primary: d.primary,
        display: d.display,
        ref_: d.ref_,
        value: d.value,
    })
}

impl Binary {
    /// Well-formedness: the value is canonical base64, and the hyperlink,
    /// when present, is canonical.
    pub open spec fn wf(&self) -> bool {
        &&& b64_canon(self.value@) == Some(self.value@)
        &&& match self.ref_ {
            Some(u) => url_canon(u@) == Some(u@),
            None => true,
        }
    }

    /// Decode a complex attribute as a binary certificate.
    pub fn try_from_complex(c: ScimComplexAttr) -> (r: Result<Binary, ScimError>)
        requires
            c.wf(),
        ensures
            match r {
                Ok(b) => spec_binary_decode(c.deep_view()) == Ok::<_, ScimError>(b.deep_view())
                    && b.wf(),
                Err(e) => spec_binary_decode(c.deep_view()) == Err::<SpecBinary, _>(e),
            },
    {
        let mva = match MultiValueAttr::try_from_complex(c) {
            Ok(v) => v,
            Err(e) => {
                return Err(e);
            },
        };
        let MultiValueAttr { type_, primary, display, ref_, value } = mva;
        let value = match canon_b64(value.as_str()) {
            Some(c2) => c2,
            None => {
                return Err(ScimError::InvalidAttribute);
            },
        };
        Ok(Binary { type_, primary, display, ref_, value })
    }

    /// Encode this binary certificate as a complex attribute.
    pub fn into_complex(self) -> (r: ScimComplexAttr)
        ensures
            r.deep_view() == spec_binary_encode(self.deep_view()),
            r.wf(),
    {
        let Binary { type_, primary, display, ref_, value } = self;
        let mva = MultiValueAttr { type_, primary, display, ref_, value };
        mva.into_complex()
    }
}

/// View of one postal address.
#[verifier::ext_equal]
pub struct SpecAddress {
    pub type_: Option<Seq<char>>,
    pub primary: Option<bool>,
    pub formatted: Option<Seq<char>>,
    pub street_address: Option<Seq<char>>,
    pub locality: Option<Seq<char>>,
    pub region: Option<Seq<char>>,
    pub postal_code: Option<Seq<char>>,
    pub country: Option<Seq<char>>,
}

/// One postal address; every part is optional.
#[derive(Debug, Clone, PartialEq, Eq)]
pub struct Address {
    pub type_: Option<String>,
    pub primary: Option<bool>,
    pub formatted: Option<String>,
    pub street_address: Option<String>,
    pub locality: Option<String>,
    pub region: Option<String>,
    pub postal_code: Option<String>,
    pub country: Option<String>,
}

impl DeepView for Address {
    type V = SpecAddress;

    open spec fn deep_view(&self) -> SpecAddress {
        SpecAddress {
            type_: self.type_.deep_view(),
            primary: self.primary,
            formatted: self.formatted.deep_view(),
            street_address: self.street_address.deep_view(),
            locality: self.locality.deep_view(),
            region: self.region.deep_view(),
            postal_code: self.postal_code.deep_view(),
            country: self.country.deep_view(),
        }
    }
}

/// Decode of a complex attribute as a postal address.
pub open spec fn spec_address_decode(m0: Map<Seq<char>, SpecSimpleAttr>) -> Result<
    SpecAddress,
    ScimError,
> {
    let r1 = take_opt_string(m0, "type"@);
    let m1 = m0.remove("type"@);
    let r2 = take_opt_bool(m1, "primary"@);
    let m2 = m1.remove("primary"@);
    let r3 = take_opt_string(m2, "formatted"@);
    let m3 = m2.remove("formatted"@);
    let r4 = take_opt_string(m3, "streetAddress"@);
    let m4 = m3.remove("streetAddress"@);
    let r5 = take_opt_string(m4, "locality"@);
    let m5 = m4.remove("locality"@);
    let r6 = take_opt_string(m5, "region"@);
    let m6 = m5.remove("region"@);
    let r7 = take_opt_string(m6, "postalCode"@);
    let m7 = m6.remove("postalCode"@);
    let r8 = take_opt_string(m7, "country"@);
    if r1 is Err {
        Err(r1->Err_0)
    } else if r2 is Err {
        Err(r2->Err_0)
    } else if r3 is Err {
        Err(r3->Err_0)
    } else if r4 is Err {
        Err(r4->Err_0)
    } else if r5 is Err {
        Err(r5->Err_0)
    } else if r6 is Err {
        Err(r6->Err_0)
    } else if r7 is Err {
        Err(r7->Err_0)
    } else if r8 is Err {
        Err(r8->Err_0)
    } else {
        Ok(SpecAddress {
            type_: r1->Ok_0,
            primary: r2->Ok_0,
            formatted: r3->Ok_0,
            street_address: r4->Ok_0,
            locality: r5->Ok_0,
            region: r6->Ok_0,
            postal_code: r7->Ok_0,
            country: r8->Ok_0,
        })
    }
}

/// Encode of a postal address back to a complex attribute map: absent
/// parts are omitted entirely.
pub open spec fn spec_address_encode(d: SpecAddress) -> Map<Seq<char>, SpecSimpleAttr> {
    let m1 = opt_insert(Map::empty(), "type"@, d.type_);
    let m2 = opt_insert_bool(m1, "primary"@, d.primary);
    let m3 = opt_insert(m2, "formatted"@, d.formatted);
    let m4 = opt_insert(m3, "streetAddress"@, d.street_address);
    let m5 = opt_insert(m4, "locality"@, d.locality);
    let m6 = opt_insert(m5, "region"@, d.region);
    let m7 = opt_insert(m6, "postalCode"@, d.postal_code);
    opt_insert(m7, "country"@, d.country)
}

impl Address {
    /// Decode a complex attribute as a postal address.
    pub fn try_from_complex(c: ScimComplexAttr) -> (r: Result<Address, ScimError>)
        requires
            c.wf(),
        ensures
            match r {
                Ok(a) => spec_address_decode(c.deep_view()) == Ok::<_, ScimError>(a.deep_view()),
                Err(e) => spec_address_decode(c.deep_view()) == Err::<SpecAddress, _>(e),
            },
    {
        let mut attrs = c.attrs;
        let type_ = match get_option_string(&mut attrs, "type") {
            Ok(v) => v,
            Err(e) => {
                return Err(e);
            },
        };
        let primary = match get_option_bool(&mut attrs, "primary") {
            Ok(v) => v,
            Err(e) => {
                return Err(e);
            },
        };
        let formatted = match get_option_string(&mut attrs, "formatted") {
            Ok(v) => v,
            Err(e) => {
                return Err(e);
            },
        };
        let street_address = match get_option_string(&mut attrs, "streetAddress") {
            Ok(v) => v,
            Err(e) => {
                return Err(e);
            },
        };
        let locality = match get_option_string(&mut attrs, "locality") {
            Ok(v) => v,
            Err(e) => {
                return Err(e);
            },
        };
        let region = match get_option_string(&mut attrs, "region") {
            Ok(v) => v,
            Err(e) => {
                return Err(e);
            },
        };
        let postal_code = match get_option_string(&mut attrs, "postalCode") {
            Ok(v) => v,
            Err(e) => {
                return Err(e);
            },
        };
        let country = match get_option_string(&mut attrs, "country") {
            Ok(v) => v,
            Err(e) => {
                return Err(e);
            },
        };
        Ok(Address {
            type_,
            primary,
            formatted,
            street_address,
            locality,
            region,
            postal_code,
            country,
        })
    }

    /// Encode this postal address as a complex attribute.
    pub fn into_complex(self) -> (r: ScimComplexAttr)
        ensures
            r.deep_view() == spec_address_encode(self.deep_view()),
            r.wf(),
    {
        let mut attrs = AttrMap::<crate::attr::ScimSimpleAttr>::new();
        if let Some(v) = self.type_ {
            attrs.insert(String::from_str("type"), crate::attr::ScimSimpleAttr::String(v));
        }
        if let Some(v) = self.primary {
            attrs.insert(String::from_str("primary"), crate::attr::ScimSimpleAttr::Bool(v));
        }
        if let Some(v) = self.formatted {
            attrs.insert(String::from_str("formatted"), crate::attr::ScimSimpleAttr::String(v));
        }
        if let Some(v) = self.street_address {
            attrs.insert(
                String::from_str("streetAddress"),
                crate::attr::ScimSimpleAttr::String(v),
            );
        }
        if let Some(v) = self.locality {
            attrs.insert(String::from_str("locality"), crate::attr::ScimSimpleAttr::String(v));
        }
        if let Some(v) = self.region {
            attrs.insert(String::from_str("region"), crate::attr::ScimSimpleAttr::String(v));
        }
        if let Some(v) = self.postal_code {
            attrs.insert(String::from_str("postalCode"), crate::attr::ScimSimpleAttr::String(v));
        }
        if let Some(v) = self.country {
            attrs.insert(String::from_str("country"), crate::attr::ScimSimpleAttr::String(v));
        }
        ScimComplexAttr { attrs }
    }
}

/// View of one group-membership reference of a user.
#[verifier::ext_equal]
pub struct SpecGroupRef {
    pub type_: Option<Seq<char>>,
    pub display: Seq<char>,
    pub value: Seq<char>,
    pub ref_: Seq<char>,
}

/// One group a user belongs to: an optional membership type, a display
/// name, the group id (canonical UUID text) and a hyperlink (canonical
/// URI text).
#[derive(Debug, Clone, PartialEq, Eq)]
pub struct Group {
    pub type_: Option<String>,
    pub display: String,
    pub value: String,
    pub ref_: String,
}

impl DeepView for Group {
    type V = SpecGroupRef;

    open spec fn deep_view(&self) -> SpecGroupRef {
        SpecGroupRef {
            type_: self.type_.deep_view(),
            display: self.display@,
            value: self.value@,
            ref_: self.ref_@,
        }
    }
}

/// Decode of a complex attribute as a group-membership reference.
pub open spec fn spec_group_ref_decode(m0: Map<Seq<char>, SpecSimpleAttr>) -> Result<
    SpecGroupRef,
    ScimError,
> {
    let r1 = take_opt_string(m0, "type"@);
    let m1 = m0.remove("type"@);
    let r2 = take_req_string(m1, "display"@);
    let m2 = m1.remove("display"@);
    let r3 = take_req_uuid(m2, "value"@);
    let m3 = m2.remove("value"@);
    let r4 = take_req_url(m3, "$ref"@);
    if r1 is Err {
        Err(r1->Err_0)
    } else if r2 is Err {
        Err(r2->Err_0)
    } else if r3 is Err {
        Err(r3->Err_0)
    } else if r4 is Err {
        Err(r4->Err_0)
    } else {
        Ok(SpecGroupRef { type_: r1->Ok_0, display: r2->Ok_0, value: r3->Ok_0, ref_: r4->Ok_0 })
    }
}

/// Encode of a group-membership reference back to a complex attribute
/// map.
pub open spec fn spec_group_ref_encode(d: SpecGroupRef) -> Map<Seq<char>, SpecSimpleAttr> {
    let m1 = opt_insert(Map::empty(), "type"@, d.type_);
    m1.insert("display"@, SpecSimpleAttr::String(d.display)).insert(
        "$ref"@,
        SpecSimpleAttr::String(d.ref_),
    ).insert("value"@, SpecSimpleAttr::String(d.value))
}

impl Group {
    /// Well-formedness: the group id and hyperlink are canonical.
    pub open spec fn wf(&self) -> bool {
        &&& uuid_canon(self.value@) == Some(self.value@)
        &&& url_canon(self.ref_@) == Some(self.ref_@)
    }

    /// Decode a complex attribute as a group-membership reference.
    pub fn try_from_complex(c: ScimComplexAttr) -> (r: Result<Group, ScimError>)
        requires
            c.wf(),
        ensures
            match r {
                Ok(g) => spec_group_ref_decode(c.deep_view()) == Ok::<_, ScimError>(
                    g.deep_view()) && g.wf(),
                Err(e) => spec_group_ref_decode(c.deep_view()) == Err::<SpecGroupRef, _>(e),
            },
    {
        let mut attrs = c.attrs;
        let type_ = match get_option_string(&mut attrs, "type") {
            Ok(v) => v,
            Err(e) => {
                return Err(e);
            },
        };
        let display = match get_string(&mut attrs, "display") {
            Ok(v) => v,
            Err(e) => {
                return Err(e);
            },
        };
        let value = match get_uuid(&mut attrs, "value") {
            Ok(v) => v,
            Err(e) => {
                return Err(e);
            },
        };
        let ref_ = match get_url(&mut attrs, "$ref") {
            Ok(v) => v,
            Err(e) => {
                return Err(e);
            },
        };
        Ok(Group { type_, display, value, ref_ })
    }

    /// Encode this group-membership reference as a complex attribute.
    pub fn into_complex(self) -> (r: ScimComplexAttr)
        ensures
            r.deep_view() == spec_group_ref_encode(self.deep_view()),
            r.wf(),
    {
        let mut attrs = AttrMap::<crate::attr::ScimSimpleAttr>::new();
        if let Some(v) = self.type_ {
            attrs.insert(String::from_str("type"), crate::attr::ScimSimpleAttr::String(v));
        }
        attrs.insert(String::from_str("display"), crate::attr::ScimSimpleAttr::String(
            self.display));
        attrs.insert(String::from_str("$ref"), crate::attr::ScimSimpleAttr::String(self.ref_));
        attrs.insert(String::from_str("value"), crate::attr::ScimSimpleAttr::String(self.value));
        ScimComplexAttr { attrs }
    }
}

/// Element-wise decode of a list of multi-valued attribute elements; the
/// first element failure propagates.
pub open spec fn spec_mvas_decode(ms: Seq<Map<Seq<char>, SpecSimpleAttr>>) -> Result<
    Seq<SpecMultiValue>,
    ScimError,
>
    decreases ms.len(),
{
    if ms.len() == 0 {
        Ok(Seq::empty())
    } else {
        match spec_mvas_decode(ms.drop_last()) {
            Err(e) => Err(e),
            Ok(t) => match spec_mva_decode(ms.last()) {
                Err(e) => Err(e),
                Ok(d) => Ok(t.push(d)),
            },
        }
    }
}

/// Element-wise decode of a list of photos; the first element failure
/// propagates.
pub open spec fn spec_photos_decode(ms: Seq<Map<Seq<char>, SpecSimpleAttr>>) -> Result<
    Seq<SpecPhoto>,
    ScimError,
>
    decreases ms.len(),
{
    if ms.len() == 0 {
        Ok(Seq::empty())
    } else {
        match spec_photos_decode(ms.drop_last()) {
            Err(e) => Err(e),
            Ok(t) => match spec_photo_decode(ms.last()) {
                Err(e) => Err(e),
                Ok(d) => Ok(t.push(d)),
            },
        }
    }
}

/// Element-wise decode of a list of postal addresses; the first element
/// failure propagates.
pub open spec fn spec_addresses_decode(ms: Seq<Map<Seq<char>, SpecSimpleAttr>>) -> Result<
    Seq<SpecAddress>,
    ScimError,
>
    decreases ms.len(),
{
    if ms.len() == 0 {
        Ok(Seq::empty())
    } else {
        match spec_addresses_decode(ms.drop_last()) {
            Err(e) => Err(e),
            Ok(t) => match spec_address_decode(ms.last()) {
                Err(e) => Err(e),
                Ok(d) => Ok(t.push(d)),
            },
        }
    }
}

/// Element-wise decode of a list of group-membership references; the
/// first element failure propagates.
pub open spec fn spec_group_refs_decode(ms: Seq<Map<Seq<char>, SpecSimpleAttr>>) -> Result<
    Seq<SpecGroupRef>,
    ScimError,
>
    decreases ms.len(),
{
    if ms.len() == 0 {
        Ok(Seq::empty())
    } else {
        match spec_group_refs_decode(ms.drop_last()) {
            Err(e) => Err(e),
            Ok(t) => match spec_group_ref_decode(ms.last()) {
                Err(e) => Err(e),
                Ok(d) => Ok(t.push(d)),
            },
        }
    }
}

/// Element-wise decode of a list of binary certificates; the first
/// element failure propagates.
pub open spec fn spec_binaries_decode(ms: Seq<Map<Seq<char>, SpecSimpleAttr>>) -> Result<
    Seq<SpecBinary>,
    ScimError,
>
    decreases ms.len(),
{
    if ms.len() == 0 {
        Ok(Seq::empty())
    } else {
        match spec_binaries_decode(ms.drop_last()) {
            Err(e) => Err(e),
            Ok(t) => match spec_binary_decode(ms.last()) {
                Err(e) => Err(e),
                Ok(d) => Ok(t.push(d)),
            },
        }
    }
}

/// Decode each element of a multi-valued attribute list.
#[verifier::loop_isolation(false)]
fn decode_mva_list(v: Vec<ScimComplexAttr>) -> (r: Result<Vec<MultiValueAttr>, ScimError>)
    requires
        forall|i: int| 0 <= i < v@.len() ==> (#[trigger] v@[i]).wf(),
    ensures
        match r {
            Ok(out) => spec_mvas_decode(v.deep_view()) == Ok::<_, ScimError>(out.deep_view())
                && (forall|i: int| 0 <= i < out@.len() ==> (#[trigger] out@[i]).wf()),
            Err(e) => spec_mvas_decode(v.deep_view()) == Err::<Seq<SpecMultiValue>, _>(e),
        },
{
    let ghost ms = v.deep_view();
    let ghost all = v@;
    let mut rest = v;
    let n = rest.len();
    let mut out: Vec<MultiValueAttr> = Vec::new();
    let mut i: usize = 0;
    proof {
        assert(out.deep_view() =~= Seq::<SpecMultiValue>::empty());
        assert(ms.take(0) =~= Seq::<Map<Seq<char>, SpecSimpleAttr>>::empty());
    }
    while i < n
        invariant
            i <= n,
            rest@ == all.skip(i as int),
            out@.len() == i,
            spec_mvas_decode(ms.take(i as int)) == Ok::<_, ScimError>(out.deep_view()),
            forall|j: int| 0 <= j < i ==> (#[trigger] out@[j]).wf(),
        decreases n - i,
    {
        proof {
            assert(all.skip(i as int)[0] == all[i as int]);
        }
        let c = rest.remove(0);
        proof {
            assert(rest@ =~= all.skip(i as int + 1));
        }
        match MultiValueAttr::try_from_complex(c) {
            Ok(d) => {
                proof {
                    assert(ms.take(i as int + 1).drop_last() =~= ms.take(i as int));
                    assert(ms.take(i as int + 1).last() == ms[i as int]);
                }
                out.push(d);
                proof {
                    assert(out.deep_view() =~= spec_mvas_decode(ms.take(i as int + 1))->Ok_0);
                }
            },
            Err(e) => {
                proof {
                    lemma_list_first_err_mva(ms, i as int, e);
                }
                return Err(e);
            },
        }
        i += 1;
    }
    proof {
        assert(ms.take(n as int) =~= ms);
    }
    Ok(out)
}

/// A list whose elements up to an index decode and whose element at the
/// index fails, fails with that element's error.
pub proof fn lemma_list_first_err_mva(ms: Seq<Map<Seq<char>, SpecSimpleAttr>>, i: int, e: ScimError)
    requires
        0 <= i < ms.len(),
        spec_mvas_decode(ms.take(i)) is Ok,
        spec_mva_decode(ms[i]) == Err::<SpecMultiValue, _>(e),
    ensures
        spec_mvas_decode(ms) == Err::<Seq<SpecMultiValue>, _>(e),
    decreases ms.len(),
{
    if i == ms.len() - 1 {
        assert(ms.take(i) =~= ms.drop_last());
    } else {
        assert(ms.drop_last().take(i) =~= ms.take(i));
        assert(ms.drop_last()[i] == ms[i]);
        lemma_list_first_err_mva(ms.drop_last(), i, e);
    }
}

/// Decode each element of a photo list.
#[verifier::loop_isolation(false)]
fn decode_photo_list(v: Vec<ScimComplexAttr>) -> (r: Result<Vec<Photo>, ScimError>)
    requires
        forall|i: int| 0 <= i < v@.len() ==> (#[trigger] v@[i]).wf(),
    ensures
        match r {
            Ok(out) => spec_photos_decode(v.deep_view()) == Ok::<_, ScimError>(out.deep_view())
                && (forall|i: int| 0 <= i < out@.len() ==> (#[trigger] out@[i]).wf()),
            Err(e) => spec_photos_decode(v.deep_view()) == Err::<Seq<SpecPhoto>, _>(e),
        },
{
    let ghost ms = v.deep_view();
    let ghost all = v@;
    let mut rest = v;
    let n = rest.len();
    let mut out: Vec<Photo> = Vec::new();
    let mut i: usize = 0;
    proof {
        assert(out.deep_view() =~= Seq::<SpecPhoto>::empty());
        assert(ms.take(0) =~= Seq::<Map<Seq<char>, SpecSimpleAttr>>::empty());
    }
    while i < n
        invariant
            i <= n,
            rest@ == all.skip(i as int),
            out@.len() == i,
            spec_photos_decode(ms.take(i as int)) == Ok::<_, ScimError>(out.deep_view()),
            forall|j: int| 0 <= j < i ==> (#[trigger] out@[j]).wf(),
        decreases n - i,
    {
        proof {
            assert(all.skip(i as int)[0] == all[i as int]);
        }
        let c = rest.remove(0);
        proof {
            assert(rest@ =~= all.skip(i as int + 1));
        }
        match Photo::try_from_complex(c) {
            Ok(d) => {
                proof {
                    assert(ms.take(i as int + 1).drop_last() =~= ms.take(i as int));
                    assert(ms.take(i as int + 1).last() == ms[i as int]);
                }
                out.push(d);
                proof {
                    assert(out.deep_view() =~= spec_photos_decode(ms.take(i as int + 1))->Ok_0);
                }
            },
            Err(e) => {
                proof {
                    lemma_list_first_err_photo(ms, i as int, e);
                }
                return Err(e);
            },
        }
        i += 1;
    }
    proof {
        assert(ms.take(n as int) =~= ms);
    }
    Ok(out)
}

/// A list whose elements up to an index decode and whose element at the
/// index fails, fails with that element's error.
pub proof fn lemma_list_first_err_photo(
    ms: Seq<Map<Seq<char>, SpecSimpleAttr>>,
    i: int,
    e: ScimError,
)
    requires
        0 <= i < ms.len(),
        spec_photos_decode(ms.take(i)) is Ok,
        spec_photo_decode(ms[i]) == Err::<SpecPhoto, _>(e),
    ensures
        spec_photos_decode(ms) == Err::<Seq<SpecPhoto>, _>(e),
    decreases ms.len(),
{
    if i == ms.len() - 1 {
        assert(ms.take(i) =~= ms.drop_last());
    } else {
        assert(ms.drop_last().take(i) =~= ms.take(i));
        assert(ms.drop_last()[i] == ms[i]);
        lemma_list_first_err_photo(ms.drop_last(), i, e);
    }
}

/// Decode each element of an address list.
#[verifier::loop_isolation(false)]
fn decode_address_list(v: Vec<ScimComplexAttr>) -> (r: Result<Vec<Address>, ScimError>)
    requires
        forall|i: int| 0 <= i < v@.len() ==> (#[trigger] v@[i]).wf(),
    ensures
        match r {
            Ok(out) => spec_addresses_decode(v.deep_view()) == Ok::<_, ScimError>(
                out.deep_view()),
            Err(e) => spec_addresses_decode(v.deep_view()) == Err::<Seq<SpecAddress>, _>(e),
        },
{
    let ghost ms = v.deep_view();
    let ghost all = v@;
    let mut rest = v;
    let n = rest.len();
    let mut out: Vec<Address> = Vec::new();
    let mut i: usize = 0;
    proof {
        assert(out.deep_view() =~= Seq::<SpecAddress>::empty());
        assert(ms.take(0) =~= Seq::<Map<Seq<char>, SpecSimpleAttr>>::empty());
    }
    while i < n
        invariant
            i <= n,
            rest@ == all.skip(i as int),
            out@.len() == i,
            spec_addresses_decode(ms.take(i as int)) == Ok::<_, ScimError>(out.deep_view()),
        decreases n - i,
    {
        proof {
            assert(all.skip(i as int)[0] == all[i as int]);
        }
        let c = rest.remove(0);
        proof {
            assert(rest@ =~= all.skip(i as int + 1));
        }
        match Address::try_from_complex(c) {
            Ok(d) => {
                proof {
                    assert(ms.take(i as int + 1).drop_last() =~= ms.take(i as int));
                    assert(ms.take(i as int + 1).last() == ms[i as int]);
                }
                out.push(d);
                proof {
                    assert(out.deep_view() =~= spec_addresses_decode(ms.take(
                        i as int + 1))->Ok_0);
                }
            },
            Err(e) => {
                proof {
                    lemma_list_first_err_address(ms, i as int, e);
                }
                return Err(e);
            },
        }
        i += 1;
    }
    proof {
        assert(ms.take(n as int) =~= ms);
    }
    Ok(out)
}

/// A list whose elements up to an index decode and whose element at the
/// index fails, fails with that element's error.
pub proof fn lemma_list_first_err_address(
    ms: Seq<Map<Seq<char>, SpecSimpleAttr>>,
    i: int,
    e: ScimError,
)
    requires
        0 <= i < ms.len(),
        spec_addresses_decode(ms.take(i)) is Ok,
        spec_address_decode(ms[i]) == Err::<SpecAddress, _>(e),
    ensures
        spec_addresses_decode(ms) == Err::<Seq<SpecAddress>, _>(e),
    decreases ms.len(),
{
    if i == ms.len() - 1 {
        assert(ms.take(i) =~= ms.drop_last());
    } else {
        assert(ms.drop_last().take(i) =~= ms.take(i));
        assert(ms.drop_last()[i] == ms[i]);
        lemma_list_first_err_address(ms.drop_last(), i, e);
    }
}

/// Decode each element of a group-membership list.
#[verifier::loop_isolation(false)]
fn decode_group_list(v: Vec<ScimComplexAttr>) -> (r: Result<Vec<Group>, ScimError>)
    requires
        forall|i: int| 0 <= i < v@.len() ==> (#[trigger] v@[i]).wf(),
    ensures
        match r {
            Ok(out) => spec_group_refs_decode(v.deep_view()) == Ok::<_, ScimError>(
                out.deep_view()) && (forall|i: int| 0 <= i < out@.len() ==> (
                #[trigger] out@[i]).wf()),
            Err(e) => spec_group_refs_decode(v.deep_view()) == Err::<Seq<SpecGroupRef>, _>(e),
        },
{
    let ghost ms = v.deep_view();
    let ghost all = v@;
    let mut rest = v;
    let n = rest.len();
    let mut out: Vec<Group> = Vec::new();
    let mut i: usize = 0;
    proof {
        assert(out.deep_view() =~= Seq::<SpecGroupRef>::empty());
        assert(ms.take(0) =~= Seq::<Map<Seq<char>, SpecSimpleAttr>>::empty());
    }
    while i < n
        invariant
            i <= n,
            rest@ == all.skip(i as int),
            out@.len() == i,
            spec_group_refs_decode(ms.take(i as int)) == Ok::<_, ScimError>(out.deep_view()),
            forall|j: int| 0 <= j < i ==> (#[trigger] out@[j]).wf(),
        decreases n - i,
    {
        proof {
            assert(all.skip(i as int)[0] == all[i as int]);
        }
        let c = rest.remove(0);
        proof {
            assert(rest@ =~= all.skip(i as int + 1));
        }
        match Group::try_from_complex(c) {
            Ok(d) => {
                proof {
                    assert(ms.take(i as int + 1).drop_last() =~= ms.take(i as int));
                    assert(ms.take(i as int + 1).last() == ms[i as int]);
                }
                out.push(d);
                proof {
                    assert(out.deep_view() =~= spec_group_refs_decode(ms.take(
                        i as int + 1))->Ok_0);
                }
            },
            Err(e) => {
                proof {
                    lemma_list_first_err_group(ms, i as int, e);
                }
                return Err(e);
            },
        }
        i += 1;
    }
    proof {
        assert(ms.take(n as int) =~= ms);
    }
    Ok(out)
}

/// A list whose elements up to an index decode and whose element at the
/// index fails, fails with that element's error.
pub proof fn lemma_list_first_err_group(
    ms: Seq<Map<Seq<char>, SpecSimpleAttr>>,
    i: int,
    e: ScimError,
)
    requires
        0 <= i < ms.len(),
        spec_group_refs_decode(ms.take(i)) is Ok,
        spec_group_ref_decode(ms[i]) == Err::<SpecGroupRef, _>(e),
    ensures
        spec_group_refs_decode(ms) == Err::<Seq<SpecGroupRef>, _>(e),
    decreases ms.len(),
{
    if i == ms.len() - 1 {
        assert(ms.take(i) =~= ms.drop_last());
    } else {
        assert(ms.drop_last().take(i) =~= ms.take(i));
        assert(ms.drop_last()[i] == ms[i]);
        lemma_list_first_err_group(ms.drop_last(), i, e);
    }
}

/// Decode each element of a binary certificate list.
#[verifier::loop_isolation(false)]
fn decode_binary_list(v: Vec<ScimComplexAttr>) -> (r: Result<Vec<Binary>, ScimError>)
    requires
        forall|i: int| 0 <= i < v@.len() ==> (#[trigger] v@[i]).wf(),
    ensures
        match r {
            Ok(out) => spec_binaries_decode(v.deep_view()) == Ok::<_, ScimError>(out.deep_view())
                && (forall|i: int| 0 <= i < out@.len() ==> (#[trigger] out@[i]).wf()),
            Err(e) => spec_binaries_decode(v.deep_view()) == Err::<Seq<SpecBinary>, _>(e),
        },
{
    let ghost ms = v.deep_view();
    let ghost all = v@;
    let mut rest = v;
    let n = rest.len();
    let mut out: Vec<Binary> = Vec::new();
    let mut i: usize = 0;
    proof {
        assert(out.deep_view() =~= Seq::<SpecBinary>::empty());
        assert(ms.take(0) =~= Seq::<Map<Seq<char>, SpecSimpleAttr>>::empty());
    }
    while i < n
        invariant
            i <= n,
            rest@ == all.skip(i as int),
            out@.len() == i,
            spec_binaries_decode(ms.take(i as int)) == Ok::<_, ScimError>(out.deep_view()),
            forall|j: int| 0 <= j < i ==> (#[trigger] out@[j]).wf(),
        decreases n - i,
    {
        proof {
            assert(all.skip(i as int)[0] == all[i as int]);
        }
        let c = rest.remove(0);
        proof {
            assert(rest@ =~= all.skip(i as int + 1));
        }
        match Binary::try_from_complex(c) {
            Ok(d) => {
                proof {
                    assert(ms.take(i as int + 1).drop_last() =~= ms.take(i as int));
                    assert(ms.take(i as int + 1).last() == ms[i as int]);
                }
                out.push(d);
                proof {
                    assert(out.deep_view() =~= spec_binaries_decode(ms.take(
                        i as int + 1))->Ok_0);
                }
            },
            Err(e) => {
                proof {
                    lemma_list_first_err_binary(ms, i as int, e);
                }
                return Err(e);
            },
        }
        i += 1;
    }
    proof {
        assert(ms.take(n as int) =~= ms);
    }
    Ok(out)
}

/// A list whose elements up to an index decode and whose element at the
/// index fails, fails with that element's error.
pub proof fn lemma_list_first_err_binary(
    ms: Seq<Map<Seq<char>, SpecSimpleAttr>>,
    i: int,
    e: ScimError,
)
    requires
        0 <= i < ms.len(),
        spec_binaries_decode(ms.take(i)) is Ok,
        spec_binary_decode(ms[i]) == Err::<SpecBinary, _>(e),
    ensures
        spec_binaries_decode(ms) == Err::<Seq<SpecBinary>, _>(e),
    decreases ms.len(),
{
    if i == ms.len() - 1 {
        assert(ms.take(i) =~= ms.drop_last());
    } else {
        assert(ms.drop_last().take(i) =~= ms.take(i));
        assert(ms.drop_last()[i] == ms[i]);
        lemma_list_first_err_binary(ms.drop_last(), i, e);
    }
}

/// Encode each element of a multi-valued attribute list.
#[verifier::loop_isolation(false)]
fn encode_mva_list(v: Vec<MultiValueAttr>) -> (r: Vec<ScimComplexAttr>)
    ensures
        r.deep_view() == v.deep_view().map_values(|d: SpecMultiValue| spec_mva_encode(d)),
        forall|i: int| 0 <= i < r@.len() ==> (#[trigger] r@[i]).wf(),
{
    let ghost all = v@;
    let mut rest = v;
    let n = rest.len();
    let mut out: Vec<ScimComplexAttr> = Vec::new();
    let mut i: usize = 0;
    while i < n
        invariant
            i <= n,
            rest@ == all.skip(i as int),
            out@.len() == i,
            forall|j: int| 0 <= j < i ==> (#[trigger] out@[j]).deep_view() == spec_mva_encode(
                all[j].deep_view()),
            forall|j: int| 0 <= j < i ==> (#[trigger] out@[j]).wf(),
        decreases n - i,
    {
        proof {
            assert(all.skip(i as int)[0] == all[i as int]);
        }
        let d = rest.remove(0);
        proof {
            assert(rest@ =~= all.skip(i as int + 1));
        }
        let c = d.into_complex();
        out.push(c);
        i += 1;
    }
    proof {
        assert(out.deep_view() =~= v.deep_view().map_values(
            |d: SpecMultiValue| spec_mva_encode(d)));
    }
    out
}

/// Encode each element of a photo list.
#[verifier::loop_isolation(false)]
fn encode_photo_list(v: Vec<Photo>) -> (r: Vec<ScimComplexAttr>)
    ensures
        r.deep_view() == v.deep_view().map_values(|d: SpecPhoto| spec_photo_encode(d)),
        forall|i: int| 0 <= i < r@.len() ==> (#[trigger] r@[i]).wf(),
{
    let ghost all = v@;
    let mut rest = v;
    let n = rest.len();
    let mut out: Vec<ScimComplexAttr> = Vec::new();
    let mut i: usize = 0;
    while i < n
        invariant
            i <= n,
            rest@ == all.skip(i as int),
            out@.len() == i,
            forall|j: int| 0 <= j < i ==> (#[trigger] out@[j]).deep_view() == spec_photo_encode(
                all[j].deep_view()),
            forall|j: int| 0 <= j < i ==> (#[trigger] out@[j]).wf(),
        decreases n - i,
    {
        proof {
            assert(all.skip(i as int)[0] == all[i as int]);
        }
        let d = rest.remove(0);
        proof {
            assert(rest@ =~= all.skip(i as int + 1));
        }
        let c = d.into_complex();
        out.push(c);
        i += 1;
    }
    proof {
        assert(out.deep_view() =~= v.deep_view().map_values(
            |d: SpecPhoto| spec_photo_encode(d)));
    }
    out
}

/// Encode each element of an address list.
#[verifier::loop_isolation(false)]
fn encode_address_list(v: Vec<Address>) -> (r: Vec<ScimComplexAttr>)
    ensures
        r.deep_view() == v.deep_view().map_values(|d: SpecAddress| spec_address_encode(d)),
        forall|i: int| 0 <= i < r@.len() ==> (#[trigger] r@[i]).wf(),
{
    let ghost all = v@;
    let mut rest = v;
    let n = rest.len();
    let mut out: Vec<ScimComplexAttr> = Vec::new();
    let mut i: usize = 0;
    while i < n
        invariant
            i <= n,
            rest@ == all.skip(i as int),
            out@.len() == i,
            forall|j: int| 0 <= j < i ==> (#[trigger] out@[j]).deep_view()
                == spec_address_encode(all[j].deep_view()),
            forall|j: int| 0 <= j < i ==> (#[trigger] out@[j]).wf(),
        decreases n - i,
    {
        proof {
            assert(all.skip(i as int)[0] == all[i as int]);
        }
        let d = rest.remove(0);
        proof {
            assert(rest@ =~= all.skip(i as int + 1));
        }
        let c = d.into_complex();
        out.push(c);
        i += 1;
    }
    proof {
        assert(out.deep_view() =~= v.deep_view().map_values(
            |d: SpecAddress| spec_address_encode(d)));
    }
    out
}

/// Encode each element of a group-membership list.
#[verifier::loop_isolation(false)]
fn encode_group_list(v: Vec<Group>) -> (r: Vec<ScimComplexAttr>)
    ensures
        r.deep_view() == v.deep_view().map_values(|d: SpecGroupRef| spec_group_ref_encode(d)),
        forall|i: int| 0 <= i < r@.len() ==> (#[trigger] r@[i]).wf(),
{
    let ghost all = v@;
    let mut rest = v;
    let n = rest.len();
    let mut out: Vec<ScimComplexAttr> = Vec::new();
    let mut i: usize = 0;
    while i < n
        invariant
            i <= n,
            rest@ == all.skip(i as int),
            out@.len() == i,
            forall|j: int| 0 <= j < i ==> (#[trigger] out@[j]).deep_view()
                == spec_group_ref_encode(all[j].deep_view()),
            forall|j: int| 0 <= j < i ==> (#[trigger] out@[j]).wf(),
        decreases n - i,
    {
        proof {
            assert(all.skip(i as int)[0] == all[i as int]);
        }
        let d = rest.remove(0);
        proof {
            assert(rest@ =~= all.skip(i as int + 1));
        }
        let c = d.into_complex();
        out.push(c);
        i += 1;
    }
    proof {
        assert(out.deep_view() =~= v.deep_view().map_values(
            |d: SpecGroupRef| spec_group_ref_encode(d)));
    }
    out
}

/// Encode each element of a binary certificate list.
#[verifier::loop_isolation(false)]
fn encode_binary_list(v: Vec<Binary>) -> (r: Vec<ScimComplexAttr>)
    ensures
        r.deep_view() == v.deep_view().map_values(|d: SpecBinary| spec_binary_encode(d)),
        forall|i: int| 0 <= i < r@.len() ==> (#[trigger] r@[i]).wf(),
{
    let ghost all = v@;
    let mut rest = v;
    let n = rest.len();
    let mut out: Vec<ScimComplexAttr> = Vec::new();
    let mut i: usize = 0;
    while i < n
        invariant
            i <= n,
            rest@ == all.skip(i as int),
            out@.len() == i,
            forall|j: int| 0 <= j < i ==> (#[trigger] out@[j]).deep_view() == spec_binary_encode(
                all[j].deep_view()),
            forall|j: int| 0 <= j < i ==> (#[trigger] out@[j]).wf(),
        decreases n - i,
    {
        proof {
            assert(all.skip(i as int)[0] == all[i as int]);
        }
        let d = rest.remove(0);
        proof {
            assert(rest@ =~= all.skip(i as int + 1));
        }
        let c = d.into_complex();
        out.push(c);
        i += 1;
    }
    proof {
        assert(out.deep_view() =~= v.deep_view().map_values(
            |d: SpecBinary| spec_binary_encode(d)));
    }
    out
}

impl DeepView for Locale {
    type V = Locale;

    open spec fn deep_view(&self) -> Locale {
        *self
    }
}

impl DeepView for Timezone {
    type V = Timezone;

    open spec fn deep_view(&self) -> Timezone {
        *self
    }
}

/// View of the multi-valued lists of a User.
#[verifier::ext_equal]
pub struct SpecUserLists {
    pub emails: Seq<SpecMultiValue>,
    pub phone_numbers: Seq<SpecMultiValue>,
    pub ims: Seq<SpecMultiValue>,
    pub photos: Seq<SpecPhoto>,
    pub addresses: Seq<SpecAddress>,
    pub groups: Seq<SpecGroupRef>,
    pub entitlements: Seq<SpecMultiValue>,
    pub roles: Seq<SpecMultiValue>,
    pub x509certificates: Seq<SpecBinary>,
}

/// The multi-valued lists of a User, extracted together.
#[derive(Debug, Clone, PartialEq, Eq)]
pub struct UserLists {
    pub emails: Vec<MultiValueAttr>,
    pub phone_numbers: Vec<MultiValueAttr>,
    pub ims: Vec<MultiValueAttr>,
    pub photos: Vec<Photo>,
    pub addresses: Vec<Address>,
    pub groups: Vec<Group>,
    pub entitlements: Vec<MultiValueAttr>,
    pub roles: Vec<MultiValueAttr>,
    pub x509certificates: Vec<Binary>,
}

impl DeepView for UserLists {
    type V = SpecUserLists;

    open spec fn deep_view(&self) -> SpecUserLists {
        SpecUserLists {
            emails: self.emails.deep_view(),
            phone_numbers: self.phone_numbers.deep_view(),
            ims: self.ims.deep_view(),
            photos: self.photos.deep_view(),
            addresses: self.addresses.deep_view(),
            groups: self.groups.deep_view(),
            entitlements: self.entitlements.deep_view(),
            roles: self.roles.deep_view(),
            x509certificates: self.x509certificates.deep_view(),
        }
    }
}

impl UserLists {
    /// Well-formedness: every element carrying canonical text is
    /// well-formed.
    pub open spec fn wf(&self) -> bool {
        &&& forall|i: int| 0 <= i < self.emails@.len() ==> (#[trigger] self.emails@[i]).wf()
        &&& forall|i: int| 0 <= i < self.phone_numbers@.len() ==> (
        #[trigger] self.phone_numbers@[i]).wf()
        &&& forall|i: int| 0 <= i < self.ims@.len() ==> (#[trigger] self.ims@[i]).wf()
        &&& forall|i: int| 0 <= i < self.photos@.len() ==> (#[trigger] self.photos@[i]).wf()
        &&& forall|i: int| 0 <= i < self.groups@.len() ==> (#[trigger] self.groups@[i]).wf()
        &&& forall|i: int| 0 <= i < self.entitlements@.len() ==> (
        #[trigger] self.entitlements@[i]).wf()
        &&& forall|i: int| 0 <= i < self.roles@.len() ==> (#[trigger] self.roles@[i]).wf()
        &&& forall|i: int| 0 <= i < self.x509certificates@.len() ==> (
        #[trigger] self.x509certificates@[i]).wf()
    }
}

/// Decode of the nine multi-valued lists of a User, in field order; the
/// first failure propagates.
pub open spec fn spec_user_lists(m12: Map<Seq<char>, SpecAttr>) -> Result<
    SpecUserLists,
    ScimError,
> {
    let t13 = take_opt_multi(m12, "emails"@);
    let d13 = if t13 is Err { Err(t13->Err_0) } else { spec_mvas_decode(t13->Ok_0) };
    let m13 = m12.remove("emails"@);
    let t14 = take_opt_multi(m13, "ims"@);
    let d14 = if t14 is Err { Err(t14->Err_0) } else { spec_mvas_decode(t14->Ok_0) };
    let m14 = m13.remove("ims"@);
    let t15 = take_opt_multi(m14, "phoneNumbers"@);
    let d15 = if t15 is Err { Err(t15->Err_0) } else { spec_mvas_decode(t15->Ok_0) };
    let m15 = m14.remove("phoneNumbers"@);
    let t16 = take_opt_multi(m15, "photos"@);
    let d16 = if t16 is Err { Err(t16->Err_0) } else { spec_photos_decode(t16->Ok_0) };
    let m16 = m15.remove("photos"@);
    let t17 = take_opt_multi(m16, "addresses"@);
    let d17 = if t17 is Err { Err(t17->Err_0) } else { spec_addresses_decode(t17->Ok_0) };
    let m17 = m16.remove("addresses"@);
    let t18 = take_opt_multi(m17, "groups"@);
    let d18 = if t18 is Err { Err(t18->Err_0) } else { spec_group_refs_decode(t18->Ok_0) };
    let m18 = m17.remove("groups"@);
    let t19 = take_opt_multi(m18, "entitlements"@);
    let d19 = if t19 is Err { Err(t19->Err_0) } else { spec_mvas_decode(t19->Ok_0) };
    let m19 = m18.remove("entitlements"@);
    let t20 = take_opt_multi(m19, "roles"@);
    let d20 = if t20 is Err { Err(t20->Err_0) } else { spec_mvas_decode(t20->Ok_0) };
    let m20 = m19.remove("roles"@);
    let t21 = take_opt_multi(m20, "x509Certificates"@);
    let d21 = if t21 is Err { Err(t21->Err_0) } else { spec_binaries_decode(t21->Ok_0) };
    if d13 is Err {
        Err(d13->Err_0)
    } else if d14 is Err {
        Err(d14->Err_0)
    } else if d15 is Err {
        Err(d15->Err_0)
    } else if d16 is Err {
        Err(d16->Err_0)
    } else if d17 is Err {
        Err(d17->Err_0)
    } else if d18 is Err {
        Err(d18->Err_0)
    } else if d19 is Err {
        Err(d19->Err_0)
    } else if d20 is Err {
        Err(d20->Err_0)
    } else if d21 is Err {
        Err(d21->Err_0)
    } else {
        Ok(SpecUserLists {
            emails: d13->Ok_0,
            ims: d14->Ok_0,
            phone_numbers: d15->Ok_0,
            photos: d16->Ok_0,
            addresses: d17->Ok_0,
            groups: d18->Ok_0,
            entitlements: d19->Ok_0,
            roles: d20->Ok_0,
            x509certificates: d21->Ok_0,
        })
    }
}

/// View of a User resource.
#[verifier::ext_equal]
pub struct SpecUser {
    pub id: Seq<char>,
    pub external_id: Option<Seq<char>>,
    pub meta: Option<SpecMeta>,
    pub user_name: Seq<char>,
    pub name: Option<SpecName>,
    pub display_name: Option<Seq<char>>,
    pub nick_name: Option<Seq<char>>,
    pub profile_url: Option<Seq<char>>,
    pub title: Option<Seq<char>>,
    pub user_type: Option<Seq<char>>,
    pub preferred_language: Option<Locale>,
    pub locale: Option<Locale>,
    pub timezone: Option<Timezone>,
    pub active: bool,
    pub password: Option<Seq<char>>,
    pub emails: Seq<SpecMultiValue>,
    pub phone_numbers: Seq<SpecMultiValue>,
    pub ims: Seq<SpecMultiValue>,
    pub photos: Seq<SpecPhoto>,
    pub addresses: Seq<SpecAddress>,
    pub groups: Seq<SpecGroupRef>,
    pub entitlements: Seq<SpecMultiValue>,
    pub roles: Seq<SpecMultiValue>,
    pub x509certificates: Seq<SpecBinary>,
}

/// One User resource: envelope fields, a required user name and active
/// flag, optional profile scalars, and the multi-valued lists.
#[derive(Debug, Clone, PartialEq, Eq)]
pub struct User {
    pub id: String,
    pub external_id: Option<String>,
    pub meta: Option<ScimMeta>,
    pub user_name: String,
    pub name: Option<Name>,
    pub display_name: Option<String>,
    pub nick_name: Option<String>,
    pub profile_url: Option<String>,
    pub title: Option<String>,
    pub user_type: Option<String>,
    pub preferred_language: Option<Locale>,
    pub locale: Option<Locale>,
    pub timezone: Option<Timezone>,
    pub active: bool,
    pub password: Option<String>,
    pub emails: Vec<MultiValueAttr>,
    pub phone_numbers: Vec<MultiValueAttr>,
    pub ims: Vec<MultiValueAttr>,
    pub photos: Vec<Photo>,
    pub addresses: Vec<Address>,
    pub groups: Vec<Group>,
    pub entitlements: Vec<MultiValueAttr>,
    pub roles: Vec<MultiValueAttr>,
    pub x509certificates: Vec<Binary>,
}

impl DeepView for User {
    type V = SpecUser;

    open spec fn deep_view(&self) -> SpecUser {
        SpecUser {
            id: self.id@,
            external_id: self.external_id.deep_view(),
            meta: self.meta.deep_view(),
            user_name: self.user_name@,
            name: self.name.deep_view(),
            display_name: self.display_name.deep_view(),
            nick_name: self.nick_name.deep_view(),
            profile_url: self.profile_url.deep_view(),
            title: self.title.deep_view(),
            user_type: self.user_type.deep_view(),
            preferred_language: self.preferred_language,
            locale: self.locale,
            timezone: self.timezone,
            active: self.active,
            password: self.password.deep_view(),
            emails: self.emails.deep_view(),
            phone_numbers: self.phone_numbers.deep_view(),
            ims: self.ims.deep_view(),
            photos: self.photos.deep_view(),
            addresses: self.addresses.deep_view(),
            groups: self.groups.deep_view(),
            entitlements: self.entitlements.deep_view(),
            roles: self.roles.deep_view(),
            x509certificates: self.x509certificates.deep_view(),
        }
    }
}

/// Decode of an optional locale attribute value.
pub open spec fn chain_locale(r: Result<Option<Seq<char>>, ScimError>) -> Result<
    Option<Locale>,
    ScimError,
> {
    if r is Err {
        Err(r->Err_0)
    } else {
        match r->Ok_0 {
            None => Ok(None),
            Some(s) => match spec_locale_of(s) {
                Some(l) => Ok(Some(l)),
                None => Err(ScimError::UnknownLocale),
            },
        }
    }
}

/// Decode of an optional timezone attribute value.
pub open spec fn chain_timezone(r: Result<Option<Seq<char>>, ScimError>) -> Result<
    Option<Timezone>,
    ScimError,
> {
    if r is Err {
        Err(r->Err_0)
    } else {
        match r->Ok_0 {
            None => Ok(None),
            Some(s) => match spec_timezone_of(s) {
                Some(t) => Ok(Some(t)),
                None => Err(ScimError::UnknownTimezone),
            },
        }
    }
}

/// Decode of an optional nested name attribute value.
pub open spec fn chain_name(r: Result<Option<Map<Seq<char>, SpecSimpleAttr>>, ScimError>) -> Result<
    Option<SpecName>,
    ScimError,
> {
    if r is Err {
        Err(r->Err_0)
    } else {
        match r->Ok_0 {
            None => Ok(None),
            Some(cm) => match spec_name_decode(cm) {
                Ok(n) => Ok(Some(n)),
                Err(e) => Err(e),
            },
        }
    }
}

/// Decode of a generic entry as a User: the User URN must be named by the
/// schema list, the user name and active flag are required, everything
/// else is optional, and the first failure propagates in field order.
/// View of the scalar fields of a User.
#[verifier::ext_equal]
pub struct SpecUserScalars {
    pub user_name: Seq<char>,
    pub name: Option<SpecName>,
    pub display_name: Option<Seq<char>>,
    pub nick_name: Option<Seq<char>>,
    pub profile_url: Option<Seq<char>>,
    pub title: Option<Seq<char>>,
    pub user_type: Option<Seq<char>>,
    pub preferred_language: Option<Locale>,
    pub locale: Option<Locale>,
    pub timezone: Option<Timezone>,
    pub active: bool,
    pub password: Option<Seq<char>>,
}

/// The scalar fields of a User, extracted together.
#[derive(Debug, Clone, PartialEq, Eq)]
pub struct UserScalars {
    pub user_name: String,
    pub name: Option<Name>,
    pub display_name: Option<String>,
    pub nick_name: Option<String>,
    pub profile_url: Option<String>,
    pub title: Option<String>,
    pub user_type: Option<String>,
    pub preferred_language: Option<Locale>,
    pub locale: Option<Locale>,
    pub timezone: Option<Timezone>,
    pub active: bool,
    pub password: Option<String>,
}

impl DeepView for UserScalars {
    type V = SpecUserScalars;

    open spec fn deep_view(&self) -> SpecUserScalars {
        SpecUserScalars {
            user_name: self.user_name@,
            name: self.name.deep_view(),
            display_name: self.display_name.deep_view(),
            nick_name: self.nick_name.deep_view(),
            profile_url: self.profile_url.deep_view(),
            title: self.title.deep_view(),
            user_type: self.user_type.deep_view(),
            preferred_language: self.preferred_language,
            locale: self.locale,
            timezone: self.timezone,
            active: self.active,
            password: self.password.deep_view(),
        }
    }
}

impl UserScalars {
    /// Well-formedness: the profile URI, when present, is canonical.
    pub open spec fn wf(&self) -> bool {
        match self.profile_url {
            Some(u) => url_canon(u@) == Some(u@),
            None => true,
        }
    }
}

/// View of the first half of a User's scalar fields.
#[verifier::ext_equal]
pub struct SpecUserScalarsA {
    pub user_name: Seq<char>,
    pub name: Option<SpecName>,
    pub display_name: Option<Seq<char>>,
    pub nick_name: Option<Seq<char>>,
    pub profile_url: Option<Seq<char>>,
    pub title: Option<Seq<char>>,
}

/// View of the second half of a User's scalar fields.
#[verifier::ext_equal]
pub struct SpecUserScalarsB {
    pub user_type: Option<Seq<char>>,
    pub preferred_language: Option<Locale>,
    pub locale: Option<Locale>,
    pub timezone: Option<Timezone>,
    pub active: bool,
    pub password: Option<Seq<char>>,
}

/// The first half of a User's scalar fields, extracted together.
#[derive(Debug, Clone, PartialEq, Eq)]
pub struct UserScalarsA {
    pub user_name: String,
    pub name: Option<Name>,
    pub display_name: Option<String>,
    pub nick_name: Option<String>,
    pub profile_url: Option<String>,
    pub title: Option<String>,
}

/// The second half of a User's scalar fields, extracted together.
#[derive(Debug, Clone, PartialEq, Eq)]
pub struct UserScalarsB {
    pub user_type: Option<String>,
    pub preferred_language: Option<Locale>,
    pub locale: Option<Locale>,
    pub timezone: Option<Timezone>,
    pub active: bool,
    pub password: Option<String>,
}

impl DeepView for UserScalarsA {
    type V = SpecUserScalarsA;

    open spec fn deep_view(&self) -> SpecUserScalarsA {
        SpecUserScalarsA {
            user_name: self.user_name@,
            name: self.name.deep_view(),
            display_name: self.display_name.deep_view(),
            nick_name: self.nick_name.deep_view(),
            profile_url: self.profile_url.deep_view(),
            title: self.title.deep_view(),
        }
    }
}

impl DeepView for UserScalarsB {
    type V = SpecUserScalarsB;

    open spec fn deep_view(&self) -> SpecUserScalarsB {
        SpecUserScalarsB {
            user_type: self.user_type.deep_view(),
            preferred_language: self.preferred_language,
            locale: self.locale,
            timezone: self.timezone,
            active: self.active,
            password: self.password.deep_view(),
        }
    }
}

/// Decode of the first six scalar fields of a User, in field order; the
/// first failure propagates.
pub open spec fn spec_user_scalars_a(m0: Map<Seq<char>, SpecAttr>) -> Result<
    SpecUserScalarsA,
    ScimError,
> {
    let r1 = take_req_sstring(m0, "userName"@);
    let m1 = m0.remove("userName"@);
    let d2 = chain_name(take_opt_scomplex(m1, "name"@));
    let m2 = m1.remove("name"@);
    let r3 = take_opt_sstring(m2, "displayName"@);
    let m3 = m2.remove("displayName"@);
    let r4 = take_opt_sstring(m3, "nickName"@);
    let m4 = m3.remove("nickName"@);
    let r5 = take_opt_surl(m4, "profileUrl"@);
    let m5 = m4.remove("profileUrl"@);
    let r6 = take_opt_sstring(m5, "title"@);
    if r1 is Err {
        Err(r1->Err_0)
    } else if d2 is Err {
        Err(d2->Err_0)
    } else if r3 is Err {
        Err(r3->Err_0)
    } else if r4 is Err {
        Err(r4->Err_0)
    } else if r5 is Err {
        Err(r5->Err_0)
    } else if r6 is Err {
        Err(r6->Err_0)
    } else {
        Ok(SpecUserScalarsA {
            user_name: r1->Ok_0,
            name: d2->Ok_0,
            display_name: r3->Ok_0,
            nick_name: r4->Ok_0,
            profile_url: r5->Ok_0,
            title: r6->Ok_0,
        })
    }
}

/// What remains of the attribute map once the first six scalar fields are
/// taken out.
pub open spec fn spec_scalars_a_rest(m: Map<Seq<char>, SpecAttr>) -> Map<Seq<char>, SpecAttr> {
    m.remove("userName"@).remove("name"@).remove("displayName"@).remove("nickName"@).remove(
        "profileUrl"@,
    ).remove("title"@)
}

/// Decode of the last six scalar fields of a User, in field order; the
/// first failure propagates.
pub open spec fn spec_user_scalars_b(m6: Map<Seq<char>, SpecAttr>) -> Result<
    SpecUserScalarsB,
    ScimError,
> {
    let r7 = take_opt_sstring(m6, "userType"@);
    let m7 = m6.remove("userType"@);
    let d8 = chain_locale(take_opt_sstring(m7, "preferredLanguage"@));
    let m8 = m7.remove("preferredLanguage"@);
    let d9 = chain_locale(take_opt_sstring(m8, "locale"@));
    let m9 = m8.remove("locale"@);
    let d10 = chain_timezone(take_opt_sstring(m9, "timezone"@));
    let m10 = m9.remove("timezone"@);
    let r11 = take_req_sbool(m10, "active"@);
    let m11 = m10.remove("active"@);
    let r12 = take_opt_sstring(m11, "password"@);
    if r7 is Err {
        Err(r7->Err_0)
    } else if d8 is Err {
        Err(d8->Err_0)
    } else if d9 is Err {
        Err(d9->Err_0)
    } else if d10 is Err {
        Err(d10->Err_0)
    } else if r11 is Err {
        Err(r11->Err_0)
    } else if r12 is Err {
        Err(r12->Err_0)
    } else {
        Ok(SpecUserScalarsB {
            user_type: r7->Ok_0,
            preferred_language: d8->Ok_0,
            locale: d9->Ok_0,
            timezone: d10->Ok_0,
            active: r11->Ok_0,
            password: r12->Ok_0,
        })
    }
}

/// What remains of the attribute map once the last six scalar fields are
/// taken out.
pub open spec fn spec_scalars_b_rest(m: Map<Seq<char>, SpecAttr>) -> Map<Seq<char>, SpecAttr> {
    m.remove("userType"@).remove("preferredLanguage"@).remove("locale"@).remove(
        "timezone"@,
    ).remove("active"@).remove("password"@)
}

/// Decode of the scalar fields of a User, in field order; the first
/// failure propagates.
pub open spec fn spec_user_scalars(m0: Map<Seq<char>, SpecAttr>) -> Result<
    SpecUserScalars,
    ScimError,
> {
    let sa = spec_user_scalars_a(m0);
    let sb = spec_user_scalars_b(spec_scalars_a_rest(m0));
    if sa is Err {
        Err(sa->Err_0)
    } else if sb is Err {
        Err(sb->Err_0)
    } else {
        Ok(SpecUserScalars {
            user_name: sa->Ok_0.user_name,
            name: sa->Ok_0.name,
            display_name: sa->Ok_0.display_name,
            nick_name: sa->Ok_0.nick_name,
            profile_url: sa->Ok_0.profile_url,
            title: sa->Ok_0.title,
            user_type: sb->Ok_0.user_type,
            preferred_language: sb->Ok_0.preferred_language,
            locale: sb->Ok_0.locale,
            timezone: sb->Ok_0.timezone,
            active: sb->Ok_0.active,
            password: sb->Ok_0.password,
        })
    }
}

/// What remains of a resource's attribute map once the scalar fields are
/// taken out.
pub open spec fn spec_scalars_rest(m: Map<Seq<char>, SpecAttr>) -> Map<Seq<char>, SpecAttr> {
    spec_scalars_b_rest(spec_scalars_a_rest(m))
}

/// Decode of a generic entry as a User: the User URN must be named by the
/// schema list, the user name and active flag are required, everything
/// else is optional, and the first failure propagates in field order.
pub open spec fn spec_user_decode(e: SpecEntry) -> Result<SpecUser, ScimError> {
    if !spec_has_schema(e.schemas, spec_user_urn()) {
        Err(ScimError::EntryMissingSchema)
    } else {
        let sc = spec_user_scalars(e.attrs);
        let dl = spec_user_lists(spec_scalars_rest(e.attrs));
        if sc is Err {
            Err(sc->Err_0)
        } else if dl is Err {
            Err(dl->Err_0)
        } else {
            Ok(SpecUser {
                id: e.id,
                external_id: e.external_id,
                meta: e.meta,
                user_name: sc->Ok_0.user_name,
                name: sc->Ok_0.name,
                display_name: sc->Ok_0.display_name,
                nick_name: sc->Ok_0.nick_name,
                profile_url: sc->Ok_0.profile_url,
                title: sc->Ok_0.title,
                user_type: sc->Ok_0.user_type,
                preferred_language: sc->Ok_0.preferred_language,
                locale: sc->Ok_0.locale,
                timezone: sc->Ok_0.timezone,
                active: sc->Ok_0.active,
                password: sc->Ok_0.password,
                emails: dl->Ok_0.emails,
                ims: dl->Ok_0.ims,
                phone_numbers: dl->Ok_0.phone_numbers,
                photos: dl->Ok_0.photos,
                addresses: dl->Ok_0.addresses,
                groups: dl->Ok_0.groups,
                entitlements: dl->Ok_0.entitlements,
                roles: dl->Ok_0.roles,
                x509certificates: dl->Ok_0.x509certificates,
            })
        }
    }
}

/// Insert a required single string attribute.
pub open spec fn sstr_insert(m: Map<Seq<char>, SpecAttr>, k: Seq<char>, s: Seq<char>) -> Map<
    Seq<char>,
    SpecAttr,
> {
    m.insert(k, SpecAttr::SingleSimple(SpecSimpleAttr::String(s)))
}

/// Insert an optional single string attribute, or leave the map as it is.
pub open spec fn opt_sstr_insert(
    m: Map<Seq<char>, SpecAttr>,
    k: Seq<char>,
    v: Option<Seq<char>>,
) -> Map<Seq<char>, SpecAttr> {
    match v {
        Some(s) => sstr_insert(m, k, s),
        None => m,
    }
}

/// Insert a multi-valued complex attribute, or omit it when empty.
pub open spec fn list_insert(
    m: Map<Seq<char>, SpecAttr>,
    k: Seq<char>,
    s: Seq<Map<Seq<char>, SpecSimpleAttr>>,
) -> Map<Seq<char>, SpecAttr> {
    if s.len() > 0 {
        m.insert(k, SpecAttr::MultiComplex(s))
    } else {
        m
    }
}

/// Encode of the scalar fields of a User into an attribute map.
pub open spec fn spec_user_scalar_attrs(sc: SpecUserScalars) -> Map<Seq<char>, SpecAttr> {
    let a1 = sstr_insert(Map::empty(), "userName"@, sc.user_name);
    let a2 = (match sc.name {
        Some(n) => a1.insert("name"@, SpecAttr::SingleComplex(spec_name_encode(n))),
        None => a1,
    });
    let a3 = opt_sstr_insert(a2, "displayName"@, sc.display_name);
    let a4 = opt_sstr_insert(a3, "nickName"@, sc.nick_name);
    let a5 = opt_sstr_insert(a4, "profileUrl"@, sc.profile_url);
    let a6 = opt_sstr_insert(a5, "title"@, sc.title);
    let a7 = opt_sstr_insert(a6, "userType"@, sc.user_type);
    let a8 = (match sc.preferred_language {
        Some(l) => sstr_insert(a7, "preferredLanguage"@, spec_locale_str(l)),
        None => a7,
    });
    let a9 = (match sc.locale {
        Some(l) => sstr_insert(a8, "locale"@, spec_locale_str(l)),
        None => a8,
    });
    let a10 = (match sc.timezone {
        Some(t) => sstr_insert(a9, "timezone"@, spec_timezone_str(t)),
        None => a9,
    });
    let a11 = a10.insert("active"@, SpecAttr::SingleSimple(SpecSimpleAttr::Bool(sc.active)));
    opt_sstr_insert(a11, "password"@, sc.password)
}

/// Encode of the multi-valued lists of a User into an attribute map:
/// empty lists are omitted entirely.
pub open spec fn spec_insert_user_lists(
    m: Map<Seq<char>, SpecAttr>,
    dl: SpecUserLists,
) -> Map<Seq<char>, SpecAttr> {
    let a13 = list_insert(m, "emails"@, dl.emails.map_values(
        |x: SpecMultiValue| spec_mva_encode(x)));
    let a14 = list_insert(a13, "phoneNumbers"@, dl.phone_numbers.map_values(
        |x: SpecMultiValue| spec_mva_encode(x)));
    let a15 = list_insert(a14, "ims"@, dl.ims.map_values(
        |x: SpecMultiValue| spec_mva_encode(x)));
    let a16 = list_insert(a15, "photos"@, dl.photos.map_values(
        |x: SpecPhoto| spec_photo_encode(x)));
    let a17 = list_insert(a16, "addresses"@, dl.addresses.map_values(
        |x: SpecAddress| spec_address_encode(x)));
    let a18 = list_insert(a17, "groups"@, dl.groups.map_values(
        |x: SpecGroupRef| spec_group_ref_encode(x)));
    let a19 = list_insert(a18, "entitlements"@, dl.entitlements.map_values(
        |x: SpecMultiValue| spec_mva_encode(x)));
    let a20 = list_insert(a19, "roles"@, dl.roles.map_values(
        |x: SpecMultiValue| spec_mva_encode(x)));
    list_insert(a20, "x509Certificates"@, dl.x509certificates.map_values(
        |x: SpecBinary| spec_binary_encode(x)))
}

/// The scalar fields of a User's view.
pub open spec fn spec_user_scalars_of(d: SpecUser) -> SpecUserScalars {
    SpecUserScalars {
        user_name: d.user_name,
        name: d.name,
        display_name: d.display_name,
        nick_name: d.nick_name,
        profile_url: d.profile_url,
        title: d.title,
        user_type: d.user_type,
        preferred_language: d.preferred_language,
        locale: d.locale,
        timezone: d.timezone,
        active: d.active,
        password: d.password,
    }
}

/// The multi-valued lists of a User's view.
pub open spec fn spec_user_lists_of(d: SpecUser) -> SpecUserLists {
    SpecUserLists {
        emails: d.emails,
        phone_numbers: d.phone_numbers,
        ims: d.ims,
        photos: d.photos,
        addresses: d.addresses,
        groups: d.groups,
        entitlements: d.entitlements,
        roles: d.roles,
        x509certificates: d.x509certificates,
    }
}


/// A key that is none of the attribute names a User writes is absent from
/// a User's encoded attribute map.
#[verifier::rlimit(100)]
pub proof fn lemma_user_attrs_no_key(sc: SpecUserScalars, dl: SpecUserLists, k: Seq<char>)
    requires
        k != "userName"@,
        k != "name"@,
        k != "displayName"@,
        k != "nickName"@,
        k != "profileUrl"@,
        k != "title"@,
        k != "userType"@,
        k != "preferredLanguage"@,
        k != "locale"@,
        k != "timezone"@,
        k != "active"@,
        k != "password"@,
        k != "emails"@,
        k != "phoneNumbers"@,
        k != "ims"@,
        k != "photos"@,
        k != "addresses"@,
        k != "groups"@,
        k != "entitlements"@,
        k != "roles"@,
        k != "x509Certificates"@,
    ensures
        !spec_insert_user_lists(spec_user_scalar_attrs(sc), dl).contains_key(k),
{
}

/// Encode of a User back to a generic entry: the schema list becomes
/// exactly the User URN, absent optional scalars and empty lists are
/// omitted entirely, and the locale and timezone are written as their
/// display texts.
pub open spec fn spec_user_encode(d: SpecUser) -> SpecEntry {
    SpecEntry {
        schemas: seq![spec_user_urn()],
        id: d.id,
        external_id: d.external_id,
        meta: d.meta,
        attrs: spec_insert_user_lists(
            spec_user_scalar_attrs(spec_user_scalars_of(d)),
            spec_user_lists_of(d),
        ),
    }
}

/// Extract and decode the nine multi-valued lists of a User, in field
/// order.
#[verifier::rlimit(100)]
#[verifier::spinoff_prover]
fn take_user_lists(attrs: &mut AttrMap<ScimAttr>) -> (r: Result<UserLists, ScimError>)
    requires
        old(attrs).wf(),
        entry_attrs_wf(old(attrs)),
    ensures
        final(attrs).wf(),
        entry_attrs_wf(final(attrs)),
        match r {
            Ok(b) => spec_user_lists(old(attrs)@) == Ok::<_, ScimError>(b.deep_view())
                && b.wf(),
            Err(e) => spec_user_lists(old(attrs)@) == Err::<SpecUserLists, _>(e),
        },
{
    let ghost n13 = old(attrs)@;
    let ghost n14 = n13.remove("emails"@);
    let ghost n15 = n14.remove("ims"@);
    let ghost n16 = n15.remove("phoneNumbers"@);
    let ghost n17 = n16.remove("photos"@);
    let ghost n18 = n17.remove("addresses"@);
    let ghost n19 = n18.remove("groups"@);
    let ghost n20 = n19.remove("entitlements"@);
    let ghost n21 = n20.remove("roles"@);
    let emails_c = match get_option_multi_complex(attrs, "emails") {
        Ok(v) => v,
        Err(e) => {
            return Err(e);
        },
    };
    let emails = match decode_mva_list(emails_c) {
        Ok(v) => v,
        Err(e) => {
            return Err(e);
        },
    };
    proof {
        assert(attrs@ == n14);
    }
    let ims_c = match get_option_multi_complex(attrs, "ims") {
        Ok(v) => v,
        Err(e) => {
            return Err(e);
        },
    };
    let ims = match decode_mva_list(ims_c) {
        Ok(v) => v,
        Err(e) => {
            return Err(e);
        },
    };
    proof {
        assert(attrs@ == n15);
    }
    let phones_c = match get_option_multi_complex(attrs, "phoneNumbers") {
        Ok(v) => v,
        Err(e) => {
            return Err(e);
        },
    };
    let phone_numbers = match decode_mva_list(phones_c) {
        Ok(v) => v,
        Err(e) => {
            return Err(e);
        },
    };
    proof {
        assert(attrs@ == n16);
    }
    let photos_c = match get_option_multi_complex(attrs, "photos") {
        Ok(v) => v,
        Err(e) => {
            return Err(e);
        },
    };
    let photos = match decode_photo_list(photos_c) {
        Ok(v) => v,
        Err(e) => {
            return Err(e);
        },
    };
    proof {
        assert(attrs@ == n17);
    }
    let addresses_c = match get_option_multi_complex(attrs, "addresses") {
        Ok(v) => v,
        Err(e) => {
            return Err(e);
        },
    };
    let addresses = match decode_address_list(addresses_c) {
        Ok(v) => v,
        Err(e) => {
            return Err(e);
        },
    };
    proof {
        assert(attrs@ == n18);
    }
    let groups_c = match get_option_multi_complex(attrs, "groups") {
        Ok(v) => v,
        Err(e) => {
            return Err(e);
        },
    };
    let groups = match decode_group_list(groups_c) {
        Ok(v) => v,
        Err(e) => {
            return Err(e);
        },
    };
    proof {
        assert(attrs@ == n19);
    }
    let ents_c = match get_option_multi_complex(attrs, "entitlements") {
        Ok(v) => v,
        Err(e) => {
            return Err(e);
        },
    };
    let entitlements = match decode_mva_list(ents_c) {
        Ok(v) => v,
        Err(e) => {
            return Err(e);
        },
    };
    proof {
        assert(attrs@ == n20);
    }
    let roles_c = match get_option_multi_complex(attrs, "roles") {
        Ok(v) => v,
        Err(e) => {
            return Err(e);
        },
    };
    let roles = match decode_mva_list(roles_c) {
        Ok(v) => v,
        Err(e) => {
            return Err(e);
        },
    };
    proof {
        assert(attrs@ == n21);
    }
    let certs_c = match get_option_multi_complex(attrs, "x509Certificates") {
        Ok(v) => v,
        Err(e) => {
            return Err(e);
        },
    };
    let x509certificates = match decode_binary_list(certs_c) {
        Ok(v) => v,
        Err(e) => {
            return Err(e);
        },
    };
    Ok(UserLists {
        emails,
        phone_numbers,
        ims,
        photos,
        addresses,
        groups,
        entitlements,
        roles,
        x509certificates,
    })
}

/// Extract and decode the first six scalar fields of a User.
#[verifier::rlimit(100)]
#[verifier::spinoff_prover]
fn take_user_scalars_a(attrs: &mut AttrMap<ScimAttr>) -> (r: Result<UserScalarsA, ScimError>)
    requires
        old(attrs).wf(),
        entry_attrs_wf(old(attrs)),
    ensures
        final(attrs).wf(),
        entry_attrs_wf(final(attrs)),
        match r {
            Ok(b) => spec_user_scalars_a(old(attrs)@) == Ok::<_, ScimError>(b.deep_view())
                && final(attrs)@ == spec_scalars_a_rest(old(attrs)@)
                && (match b.profile_url {
                Some(u) => url_canon(u@) == Some(u@),
                None => true,
            }),
            Err(e) => spec_user_scalars_a(old(attrs)@) == Err::<SpecUserScalarsA, _>(e),
        },
{
    let ghost m0 = old(attrs)@;
    let ghost m1 = m0.remove("userName"@);
    let ghost m2 = m1.remove("name"@);
    let ghost m3 = m2.remove("displayName"@);
    let ghost m4 = m3.remove("nickName"@);
    let ghost m5 = m4.remove("profileUrl"@);
    let user_name = match get_single_string(attrs, "userName") {
        Ok(v) => v,
        Err(e) => {
            return Err(e);
        },
    };
    proof {
        assert(attrs@ == m1);
    }
    let name_c = match get_option_single_complex(attrs, "name") {
        Ok(v) => v,
        Err(e) => {
            return Err(e);
        },
    };
    let name = match name_c {
        None => None,
        Some(c) => match Name::try_from_complex(c) {
            Ok(n) => Some(n),
            Err(e) => {
                return Err(e);
            },
        },
    };
    proof {
        assert(attrs@ == m2);
    }
    let display_name = match get_option_single_string(attrs, "displayName") {
        Ok(v) => v,
        Err(e) => {
            return Err(e);
        },
    };
    proof {
        assert(attrs@ == m3);
    }
    let nick_name = match get_option_single_string(attrs, "nickName") {
        Ok(v) => v,
        Err(e) => {
            return Err(e);
        },
    };
    proof {
        assert(attrs@ == m4);
    }
    let profile_url = match get_option_single_url(attrs, "profileUrl") {
        Ok(v) => v,
        Err(e) => {
            return Err(e);
        },
    };
    proof {
        assert(attrs@ == m5);
    }
    let title = match get_option_single_string(attrs, "title") {
        Ok(v) => v,
        Err(e) => {
            return Err(e);
        },
    };
    Ok(UserScalarsA { user_name, name, display_name, nick_name, profile_url, title })
}

/// Extract and decode the last six scalar fields of a User.
#[verifier::rlimit(100)]
#[verifier::spinoff_prover]
fn take_user_scalars_b(attrs: &mut AttrMap<ScimAttr>) -> (r: Result<UserScalarsB, ScimError>)
    requires
        old(attrs).wf(),
        entry_attrs_wf(old(attrs)),
    ensures
        final(attrs).wf(),
        entry_attrs_wf(final(attrs)),
        match r {
            Ok(b) => spec_user_scalars_b(old(attrs)@) == Ok::<_, ScimError>(b.deep_view())
                && final(attrs)@ == spec_scalars_b_rest(old(attrs)@),
            Err(e) => spec_user_scalars_b(old(attrs)@) == Err::<SpecUserScalarsB, _>(e),
        },
{
    let ghost m6 = old(attrs)@;
    let ghost m7 = m6.remove("userType"@);
    let ghost m8 = m7.remove("preferredLanguage"@);
    let ghost m9 = m8.remove("locale"@);
    let ghost m10 = m9.remove("timezone"@);
    let ghost m11 = m10.remove("active"@);
    let user_type = match get_option_single_string(attrs, "userType") {
        Ok(v) => v,
        Err(e) => {
            return Err(e);
        },
    };
    proof {
        assert(attrs@ == m7);
    }
    let pl_s = match get_option_single_string(attrs, "preferredLanguage") {
        Ok(v) => v,
        Err(e) => {
            return Err(e);
        },
    };
    let preferred_language = match pl_s {
        None => None,
        Some(s) => match Locale::try_from_str(s.as_str()) {
            Ok(l) => Some(l),
            Err(e) => {
                return Err(e);
            },
        },
    };
    proof {
        assert(attrs@ == m8);
    }
    let lo_s = match get_option_single_string(attrs, "locale") {
        Ok(v) => v,
        Err(e) => {
            return Err(e);
        },
    };
    let locale = match lo_s {
        None => None,
        Some(s) => match Locale::try_from_str(s.as_str()) {
            Ok(l) => Some(l),
            Err(e) => {
                return Err(e);
            },
        },
    };
    proof {
        assert(attrs@ == m9);
    }
    let tz_s = match get_option_single_string(attrs, "timezone") {
        Ok(v) => v,
        Err(e) => {
            return Err(e);
        },
    };
    let timezone = match tz_s {
        None => None,
        Some(s) => match Timezone::try_from_str(s.as_str()) {
            Ok(t) => Some(t),
            Err(e) => {
                return Err(e);
            },
        },
    };
    proof {
        assert(attrs@ == m10);
    }
    let active = match get_single_bool(attrs, "active") {
        Ok(v) => v,
        Err(e) => {
            return Err(e);
        },
    };
    proof {
        assert(attrs@ == m11);
    }
    let password = match get_option_single_string(attrs, "password") {
        Ok(v) => v,
        Err(e) => {
            return Err(e);
        },
    };
    Ok(UserScalarsB { user_type, preferred_language, locale, timezone, active, password })
}

/// Extract and decode the scalar fields of a User, in field order.
#[verifier::rlimit(100)]
#[verifier::spinoff_prover]
fn take_user_scalars(attrs: &mut AttrMap<ScimAttr>) -> (r: Result<UserScalars, ScimError>)
    requires
        old(attrs).wf(),
        entry_attrs_wf(old(attrs)),
    ensures
        final(attrs).wf(),
        entry_attrs_wf(final(attrs)),
        match r {
            Ok(b) => spec_user_scalars(old(attrs)@) == Ok::<_, ScimError>(b.deep_view())
                && b.wf() && final(attrs)@ == spec_scalars_rest(old(attrs)@),
            Err(e) => spec_user_scalars(old(attrs)@) == Err::<SpecUserScalars, _>(e),
        },
{
    let sa = match take_user_scalars_a(attrs) {
        Ok(b) => b,
        Err(e) => {
            return Err(e);
        },
    };
    let sb = match take_user_scalars_b(attrs) {
        Ok(b) => b,
        Err(e) => {
            return Err(e);
        },
    };
    let UserScalarsA { user_name, name, display_name, nick_name, profile_url, title } = sa;
    let UserScalarsB { user_type, preferred_language, locale, timezone, active, password } = sb;
    Ok(UserScalars {
        user_name,
        name,
        display_name,
        nick_name,
        profile_url,
        title,
        user_type,
        preferred_language,
        locale,
        timezone,
        active,
        password,
    })
}

/// Encode and insert the scalar fields of a User into a fresh attribute
/// map.
#[verifier::rlimit(100)]
#[verifier::spinoff_prover]
fn insert_user_scalars(attrs: &mut AttrMap<ScimAttr>, sc: UserScalars)
    requires
        old(attrs).wf(),
        old(attrs)@ == Map::<Seq<char>, SpecAttr>::empty(),
        old(attrs).entries@.len() == 0,
    ensures
        final(attrs).wf(),
        final(attrs)@ == spec_user_scalar_attrs(sc.deep_view()),
        entry_attrs_wf(final(attrs)),
{
    let ghost d = sc.deep_view();
    let ghost a1 = sstr_insert(Map::empty(), "userName"@, d.user_name);
    let ghost a2 = (match d.name {
        Some(n) => a1.insert("name"@, SpecAttr::SingleComplex(spec_name_encode(n))),
        None => a1,
    });
    let ghost a3 = opt_sstr_insert(a2, "displayName"@, d.display_name);
    let ghost a4 = opt_sstr_insert(a3, "nickName"@, d.nick_name);
    let ghost a5 = opt_sstr_insert(a4, "profileUrl"@, d.profile_url);
    let ghost a6 = opt_sstr_insert(a5, "title"@, d.title);
    let ghost a7 = opt_sstr_insert(a6, "userType"@, d.user_type);
    let ghost a8 = (match d.preferred_language {
        Some(l) => sstr_insert(a7, "preferredLanguage"@, spec_locale_str(l)),
        None => a7,
    });
    let ghost a9 = (match d.locale {
        Some(l) => sstr_insert(a8, "locale"@, spec_locale_str(l)),
        None => a8,
    });
    let ghost a10 = (match d.timezone {
        Some(t) => sstr_insert(a9, "timezone"@, spec_timezone_str(t)),
        None => a9,
    });
    let ghost a11 = a10.insert("active"@, SpecAttr::SingleSimple(SpecSimpleAttr::Bool(d.active)));
    let UserScalars {
        user_name,
        name,
        display_name,
        nick_name,
        profile_url,
        title,
        user_type,
        preferred_language,
        locale,
        timezone,
        active,
        password,
    } = sc;
    attrs.insert(
        String::from_str("userName"),
        ScimAttr::SingleSimple(crate::attr::ScimSimpleAttr::String(user_name)),
    );
    proof {
        assert(attrs@ == a1);
    }
    if let Some(n) = name {
        let c = n.into_complex();
        attrs.insert(String::from_str("name"), ScimAttr::SingleComplex(c));
    }
    proof {
        assert(attrs@ == a2);
    }
    if let Some(v) = display_name {
        attrs.insert(
            String::from_str("displayName"),
            ScimAttr::SingleSimple(crate::attr::ScimSimpleAttr::String(v)),
        );
    }
    proof {
        assert(attrs@ == a3);
    }
    if let Some(v) = nick_name {
        attrs.insert(
            String::from_str("nickName"),
            ScimAttr::SingleSimple(crate::attr::ScimSimpleAttr::String(v)),
        );
    }
    proof {
        assert(attrs@ == a4);
    }
    if let Some(v) = profile_url {
        attrs.insert(
            String::from_str("profileUrl"),
            ScimAttr::SingleSimple(crate::attr::ScimSimpleAttr::String(v)),
        );
    }
    proof {
        assert(attrs@ == a5);
    }
    if let Some(v) = title {
        attrs.insert(
            String::from_str("title"),
            ScimAttr::SingleSimple(crate::attr::ScimSimpleAttr::String(v)),
        );
    }
    proof {
        assert(attrs@ == a6);
    }
    if let Some(v) = user_type {
        attrs.insert(
            String::from_str("userType"),
            ScimAttr::SingleSimple(crate::attr::ScimSimpleAttr::String(v)),
        );
    }
    proof {
        assert(attrs@ == a7);
    }
    if let Some(l) = preferred_language {
        attrs.insert(
            String::from_str("preferredLanguage"),
            ScimAttr::SingleSimple(crate::attr::ScimSimpleAttr::String(String::from_str(
                l.as_str()))),
        );
    }
    proof {
        assert(attrs@ == a8);
    }
    if let Some(l) = locale {
        attrs.insert(
            String::from_str("locale"),
            ScimAttr::SingleSimple(crate::attr::ScimSimpleAttr::String(String::from_str(
                l.as_str()))),
        );
    }
    proof {
        assert(attrs@ == a9);
    }
    if let Some(t) = timezone {
        attrs.insert(
            String::from_str("timezone"),
            ScimAttr::SingleSimple(crate::attr::ScimSimpleAttr::String(String::from_str(
                t.as_str()))),
        );
    }
    proof {
        assert(attrs@ == a10);
    }
    attrs.insert(
        String::from_str("active"),
        ScimAttr::SingleSimple(crate::attr::ScimSimpleAttr::Bool(active)),
    );
    proof {
        assert(attrs@ == a11);
    }
    if let Some(v) = password {
        attrs.insert(
            String::from_str("password"),
            ScimAttr::SingleSimple(crate::attr::ScimSimpleAttr::String(v)),
        );
    }
}

/// Encode and insert the multi-valued lists of a User into an attribute
/// map.
#[verifier::rlimit(100)]
#[verifier::spinoff_prover]
fn insert_user_lists(attrs: &mut AttrMap<ScimAttr>, lists: UserLists)
    requires
        old(attrs).wf(),
    ensures
        final(attrs).wf(),
        final(attrs)@ == spec_insert_user_lists(old(attrs)@, lists.deep_view()),
        entry_attrs_wf(old(attrs)) ==> entry_attrs_wf(final(attrs)),
{
    let ghost d = lists.deep_view();
    let ghost a12 = old(attrs)@;
    let ghost a13 = list_insert(a12, "emails"@, d.emails.map_values(
        |x: SpecMultiValue| spec_mva_encode(x)));
    let ghost a14 = list_insert(a13, "phoneNumbers"@, d.phone_numbers.map_values(
        |x: SpecMultiValue| spec_mva_encode(x)));
    let ghost a15 = list_insert(a14, "ims"@, d.ims.map_values(
        |x: SpecMultiValue| spec_mva_encode(x)));
    let ghost a16 = list_insert(a15, "photos"@, d.photos.map_values(
        |x: SpecPhoto| spec_photo_encode(x)));
    let ghost a17 = list_insert(a16, "addresses"@, d.addresses.map_values(
        |x: SpecAddress| spec_address_encode(x)));
    let ghost a18 = list_insert(a17, "groups"@, d.groups.map_values(
        |x: SpecGroupRef| spec_group_ref_encode(x)));
    let ghost a19 = list_insert(a18, "entitlements"@, d.entitlements.map_values(
        |x: SpecMultiValue| spec_mva_encode(x)));
    let ghost a20 = list_insert(a19, "roles"@, d.roles.map_values(
        |x: SpecMultiValue| spec_mva_encode(x)));
    let UserLists {
        emails,
        phone_numbers,
        ims,
        photos,
        addresses,
        groups,
        entitlements,
        roles,
        x509certificates,
    } = lists;
    let ec = encode_mva_list(emails);
    if ec.len() > 0 {
        attrs.insert(String::from_str("emails"), ScimAttr::MultiComplex(ec));
    }
    proof {
        assert(attrs@ == a13);
    }
    let pc = encode_mva_list(phone_numbers);
    if pc.len() > 0 {
        attrs.insert(String::from_str("phoneNumbers"), ScimAttr::MultiComplex(pc));
    }
    proof {
        assert(attrs@ == a14);
    }
    let ic = encode_mva_list(ims);
    if ic.len() > 0 {
        attrs.insert(String::from_str("ims"), ScimAttr::MultiComplex(ic));
    }
    proof {
        assert(attrs@ == a15);
    }
    let phc = encode_photo_list(photos);
    if phc.len() > 0 {
        attrs.insert(String::from_str("photos"), ScimAttr::MultiComplex(phc));
    }
    proof {
        assert(attrs@ == a16);
    }
    let ac = encode_address_list(addresses);
    if ac.len() > 0 {
        attrs.insert(String::from_str("addresses"), ScimAttr::MultiComplex(ac));
    }
    proof {
        assert(attrs@ == a17);
    }
    let gc = encode_group_list(groups);
    if gc.len() > 0 {
        attrs.insert(String::from_str("groups"), ScimAttr::MultiComplex(gc));
    }
    proof {
        assert(attrs@ == a18);
    }
    let enc = encode_mva_list(entitlements);
    if enc.len() > 0 {
        attrs.insert(String::from_str("entitlements"), ScimAttr::MultiComplex(enc));
    }
    proof {
        assert(attrs@ == a19);
    }
    let rc = encode_mva_list(roles);
    if rc.len() > 0 {
        attrs.insert(String::from_str("roles"), ScimAttr::MultiComplex(rc));
    }
    proof {
        assert(attrs@ == a20);
    }
    let xc = encode_binary_list(x509certificates);
    if xc.len() > 0 {
        attrs.insert(String::from_str("x509Certificates"), ScimAttr::MultiComplex(xc));
    }
}

impl User {
    /// Well-formedness: the id is a canonical UUID, the metadata is
    /// well-formed, the profile URI is canonical, and every nested shape
    /// carrying canonical text is well-formed.
    pub open spec fn wf(&self) -> bool {
        &&& uuid_canon(self.id@) == Some(self.id@)
        &&& match self.meta {
            Some(mt) => mt.wf(),
            None => true,
        }
        &&& match self.profile_url {
            Some(u) => url_canon(u@) == Some(u@),
            None => true,
        }
        &&& forall|i: int| 0 <= i < self.emails@.len() ==> (#[trigger] self.emails@[i]).wf()
        &&& forall|i: int| 0 <= i < self.phone_numbers@.len() ==> (
        #[trigger] self.phone_numbers@[i]).wf()
        &&& forall|i: int| 0 <= i < self.ims@.len() ==> (#[trigger] self.ims@[i]).wf()
        &&& forall|i: int| 0 <= i < self.photos@.len() ==> (#[trigger] self.photos@[i]).wf()
        &&& forall|i: int| 0 <= i < self.groups@.len() ==> (#[trigger] self.groups@[i]).wf()
        &&& forall|i: int| 0 <= i < self.entitlements@.len() ==> (
        #[trigger] self.entitlements@[i]).wf()
        &&& forall|i: int| 0 <= i < self.roles@.len() ==> (#[trigger] self.roles@[i]).wf()
        &&& forall|i: int| 0 <= i < self.x509certificates@.len() ==> (
        #[trigger] self.x509certificates@[i]).wf()
    }

    /// Decode a generic entry as a User resource.
    #[verifier::rlimit(100)]
    #[verifier::spinoff_prover]
    pub fn try_from_entry(value: ScimEntry) -> (r: Result<User, ScimError>)
        requires
            value.wf(),
        ensures
            match r {
                Ok(u) => spec_user_decode(value.deep_view()) == Ok::<_, ScimError>(
                    u.deep_view()) && u.wf(),
                Err(e) => spec_user_decode(value.deep_view()) == Err::<SpecUser, _>(e),
            },
    {
        let ghost d = value.deep_view();
        if !has_schema(&value.schemas, "urn:ietf:params:scim:schemas:core:2.0:User") {
            return Err(ScimError::EntryMissingSchema);
        }
        let ScimEntry { schemas, id, external_id, meta, attrs } = value;
        let mut attrs = attrs;
        let sc = match take_user_scalars(&mut attrs) {
            Ok(b) => b,
            Err(e) => {
                return Err(e);
            },
        };
        let lists = match take_user_lists(&mut attrs) {
            Ok(b) => b,
            Err(e) => {
                return Err(e);
            },
        };
        let UserScalars {
            user_name,
            name,
            display_name,
            nick_name,
            profile_url,
            title,
            user_type,
            preferred_language,
            locale,
            timezone,
            active,
            password,
        } = sc;
        let UserLists {
            emails,
            phone_numbers,
            ims,
            photos,
            addresses,
            groups,
            entitlements,
            roles,
            x509certificates,
        } = lists;
        Ok(User {
            id,
            external_id,
            meta,
            user_name,
            name,
            display_name,
            nick_name,
            profile_url,
            title,
            user_type,
            preferred_language,
            locale,
            timezone,
            active,
            password,
            emails,
            phone_numbers,
            ims,
            photos,
            addresses,
            groups,
            entitlements,
            roles,
            x509certificates,
        })
    }

    /// Encode this User back to a generic entry.
    #[verifier::rlimit(100)]
    #[verifier::spinoff_prover]
    pub fn into_entry(self) -> (r: ScimEntry)
        ensures
            r.deep_view() == spec_user_encode(self.deep_view()),
            self.wf() ==> r.wf(),
    {
        let ghost d = self.deep_view();
        let ghost wf_in = self.wf();
        let User {
            id,
            external_id,
            meta,
            user_name,
            name,
            display_name,
            nick_name,
            profile_url,
            title,
            user_type,
            preferred_language,
            locale,
            timezone,
            active,
            password,
            emails,
            phone_numbers,
            ims,
            photos,
            addresses,
            groups,
            entitlements,
            roles,
            x509certificates,
        } = self;
        let sc = UserScalars {
            user_name,
            name,
            display_name,
            nick_name,
            profile_url,
            title,
            user_type,
            preferred_language,
            locale,
            timezone,
            active,
            password,
        };
        let lists = UserLists {
            emails,
            phone_numbers,
            ims,
            photos,
            addresses,
            groups,
            entitlements,
            roles,
            x509certificates,
        };
        let ghost scv = sc.deep_view();
        let ghost dlv = lists.deep_view();
        proof {
            assert(scv == spec_user_scalars_of(d));
            assert(dlv =~~= spec_user_lists_of(d));
        }
        let mut attrs = AttrMap::<ScimAttr>::new();
        insert_user_scalars(&mut attrs, sc);
        insert_user_lists(&mut attrs, lists);
        let schemas = vec![String::from_str("urn:ietf:params:scim:schemas:core:2.0:User")];
        proof {
            assert(schemas.deep_view() =~= seq![spec_user_urn()]);
        }
        let entry = ScimEntry { schemas, id, external_id, meta, attrs };
        proof {
            assert(entry.deep_view() =~~= spec_user_encode(d));
            if wf_in {
                reveal_strlit("userName");
                reveal_strlit("name");
                reveal_strlit("displayName");
                reveal_strlit("nickName");
                reveal_strlit("profileUrl");
                reveal_strlit("title");
                reveal_strlit("userType");
                reveal_strlit("preferredLanguage");
                reveal_strlit("locale");
                reveal_strlit("timezone");
                reveal_strlit("active");
                reveal_strlit("password");
                reveal_strlit("emails");
                reveal_strlit("phoneNumbers");
                reveal_strlit("ims");
                reveal_strlit("photos");
                reveal_strlit("addresses");
                reveal_strlit("groups");
                reveal_strlit("entitlements");
                reveal_strlit("roles");
                reveal_strlit("x509Certificates");
                reveal_strlit("schemas");
                reveal_strlit("id");
                reveal_strlit("externalId");
                reveal_strlit("meta");
                assert("name"@.len() == 4 && "meta"@.len() == 4 && "name"@[0] == 'n'
                    && "meta"@[0] == 'm');
                assert("profileUrl"@.len() == 10 && "externalId"@.len() == 10
                    && "profileUrl"@[0] == 'p' && "externalId"@[0] == 'e');
                assert("userName"@.len() == 8 && "displayName"@.len() == 11);
                assert("nickName"@.len() == 8 && "title"@.len() == 5);
                assert("userType"@.len() == 8 && "preferredLanguage"@.len() == 17);
                assert("locale"@.len() == 6 && "timezone"@.len() == 8);
                assert("active"@.len() == 6 && "password"@.len() == 8);
                assert("emails"@.len() == 6 && "phoneNumbers"@.len() == 12);
                assert("ims"@.len() == 3 && "photos"@.len() == 6);
                assert("addresses"@.len() == 9 && "groups"@.len() == 6);
                assert("entitlements"@.len() == 12 && "roles"@.len() == 5);
                assert("x509Certificates"@.len() == 16);
                assert("schemas"@.len() == 7 && "id"@.len() == 2 && "meta"@.len() == 4);
                lemma_user_attrs_no_key(scv, dlv, "schemas"@);
                lemma_user_attrs_no_key(scv, dlv, "id"@);
                lemma_user_attrs_no_key(scv, dlv, "externalId"@);
                lemma_user_attrs_no_key(scv, dlv, "meta"@);
                assert(!entry.attrs@.contains_key("schemas"@));
                assert(!entry.attrs@.contains_key("id"@));
                assert(!entry.attrs@.contains_key("externalId"@));
                assert(!entry.attrs@.contains_key("meta"@));
                assert(entry.wf());
            }
        }
        entry
    }
}

/// Schema enforcement: decoding an entry whose schema list omits the User
/// URN always fails with `EntryMissingSchema`, regardless of
/// otherwise-valid attributes.
pub proof fn lemma_user_schema_enforced(e: SpecEntry)
    requires
        !spec_has_schema(e.schemas, spec_user_urn()),
    ensures
        spec_user_decode(e) == Err::<SpecUser, _>(ScimError::EntryMissingSchema),
{
}

/// Required-field enforcement: a User entry without a user name fails
/// with `MissingRequiredAttribute`.
#[verifier::rlimit(100)]
pub proof fn lemma_user_required_user_name(e: SpecEntry)
    requires
        spec_has_schema(e.schemas, spec_user_urn()),
        !e.attrs.contains_key("userName"@),
    ensures
        spec_user_decode(e) == Err::<SpecUser, _>(ScimError::MissingRequiredAttribute),
{
}

/// Required-field enforcement: a User entry without an active flag never
/// decodes successfully.
#[verifier::rlimit(100)]
pub proof fn lemma_user_required_active(e: SpecEntry)
    requires
        !e.attrs.contains_key("active"@),
    ensures
        spec_user_decode(e) is Err,
{
    if spec_has_schema(e.schemas, spec_user_urn()) {
        reveal_strlit("active");
        let sa = spec_user_scalars_a(e.attrs);
        let m6 = spec_scalars_a_rest(e.attrs);
        assert(!m6.contains_key("active"@));
        let m10 = m6.remove("userType"@).remove("preferredLanguage"@).remove("locale"@).remove(
            "timezone"@);
        assert(!m10.contains_key("active"@));
        assert(take_req_sbool(m10, "active"@) == Err::<bool, _>(
            ScimError::MissingRequiredAttribute));
    }
}

/// Optional-field defaulting: a User entry without a nick name decodes
/// (when it decodes at all) with no nick name.
#[verifier::rlimit(100)]
pub proof fn lemma_user_optional_nick_name(e: SpecEntry)
    requires
        spec_user_decode(e) is Ok,
        !e.attrs.contains_key("nickName"@),
    ensures
        spec_user_decode(e)->Ok_0.nick_name is None,
{
    reveal_strlit("nickName");
    let m3 = e.attrs.remove("userName"@).remove("name"@).remove("displayName"@);
    assert(!m3.contains_key("nickName"@));
}

/// A recognized locale text is its locale's display text.
pub proof fn lemma_locale_text(s: Seq<char>, l: Locale)
    requires
        spec_locale_of(s) == Some(l),
    ensures
        spec_locale_str(l) == s,
{
}

/// A recognized timezone text is its timezone's display text.
pub proof fn lemma_timezone_text(s: Seq<char>, t: Timezone)
    requires
        spec_timezone_of(s) == Some(t),
    ensures
        spec_timezone_str(t) == s,
{
}

/// A scalar-only User payload is canonical: its schema list is exactly the
/// User URN, its attributes are only the scalar ones, and its profile URI
/// text is its own canonical form.
pub open spec fn spec_user_scalar_entry_canonical(e: SpecEntry) -> bool {
    &&& e.schemas == seq![spec_user_urn()]
    &&& e.attrs.dom() <= set![
        "userName"@,
        "displayName"@,
        "nickName"@,
        "profileUrl"@,
        "title"@,
        "userType"@,
        "preferredLanguage"@,
        "locale"@,
        "timezone"@,
        "active"@,
        "password"@,
    ]
    &&& (e.attrs.contains_key("profileUrl"@) ==> (match e.attrs["profileUrl"@] {
        SpecAttr::SingleSimple(SpecSimpleAttr::String(s)) => url_canon(s) == Some(s),
        _ => true,
    }))
}

/// Round-trip law for User, on scalar-only payloads: a canonical User
/// entry without nested or multi-valued attributes that decodes, encodes
/// back to exactly the entry it came from.
#[verifier::rlimit(100)]
#[verifier::spinoff_prover]
pub proof fn lemma_user_scalar_round_trip(e: SpecEntry, d: SpecUser)
    requires
        spec_user_decode(e) == Ok::<_, ScimError>(d),
        spec_user_scalar_entry_canonical(e),
    ensures
        spec_user_encode(d) =~~= e,
{
    reveal_strlit("userName");
    reveal_strlit("name");
    reveal_strlit("displayName");
    reveal_strlit("nickName");
    reveal_strlit("profileUrl");
    reveal_strlit("title");
    reveal_strlit("userType");
    reveal_strlit("preferredLanguage");
    reveal_strlit("locale");
    reveal_strlit("timezone");
    reveal_strlit("active");
    reveal_strlit("password");
    reveal_strlit("emails");
    reveal_strlit("phoneNumbers");
    reveal_strlit("ims");
    reveal_strlit("photos");
    reveal_strlit("addresses");
    reveal_strlit("groups");
    reveal_strlit("entitlements");
    reveal_strlit("roles");
    reveal_strlit("x509Certificates");
    assert("userName"@.len() == 8 && "name"@.len() == 4 && "displayName"@.len() == 11);
    assert("nickName"@.len() == 8 && "profileUrl"@.len() == 10 && "title"@.len() == 5);
    assert("userType"@.len() == 8 && "preferredLanguage"@.len() == 17);
    assert("locale"@.len() == 6 && "timezone"@.len() == 8 && "active"@.len() == 6);
    assert("password"@.len() == 8 && "emails"@.len() == 6 && "phoneNumbers"@.len() == 12);
    assert("ims"@.len() == 3 && "photos"@.len() == 6 && "addresses"@.len() == 9);
    assert("groups"@.len() == 6 && "entitlements"@.len() == 12 && "roles"@.len() == 5);
    assert("x509Certificates"@.len() == 16);
    assert("emails"@[0] == 'e' && "locale"@[0] == 'l' && "active"@[0] == 'a');
    assert("photos"@[0] == 'p' && "groups"@[0] == 'g');
    assert("roles"@[0] == 'r' && "title"@[0] == 't');
    assert(!e.attrs.contains_key("name"@));
    assert(!e.attrs.contains_key("emails"@));
    assert(!e.attrs.contains_key("phoneNumbers"@));
    assert(!e.attrs.contains_key("ims"@));
    assert(!e.attrs.contains_key("photos"@));
    assert(!e.attrs.contains_key("addresses"@));
    assert(!e.attrs.contains_key("groups"@));
    assert(!e.attrs.contains_key("entitlements"@));
    assert(!e.attrs.contains_key("roles"@));
    assert(!e.attrs.contains_key("x509Certificates"@));
    assert(d.name is None);
    assert(d.emails.len() == 0 && d.phone_numbers.len() == 0 && d.ims.len() == 0);
    assert(d.photos.len() == 0 && d.addresses.len() == 0 && d.groups.len() == 0);
    assert(d.entitlements.len() == 0 && d.roles.len() == 0 && d.x509certificates.len() == 0);
    if e.attrs.contains_key("preferredLanguage"@) {
        if d.preferred_language is Some {
            lemma_locale_text(
                e.attrs["preferredLanguage"@]->SingleSimple_0->String_0,
                d.preferred_language->0,
            );
        }
    }
    if e.attrs.contains_key("locale"@) {
        if d.locale is Some {
            lemma_locale_text(e.attrs["locale"@]->SingleSimple_0->String_0, d.locale->0);
        }
    }
    if e.attrs.contains_key("timezone"@) {
        if d.timezone is Some {
            lemma_timezone_text(e.attrs["timezone"@]->SingleSimple_0->String_0, d.timezone->0);
        }
    }
    assert(spec_user_encode(d).attrs =~~= e.attrs);
    assert(spec_user_encode(d) =~~= e);
}

/// A multi-valued attribute element's map is canonical: it holds only the
/// element keys, and its hyperlink text is its own canonical form.
pub open spec fn spec_mva_canonical(m: Map<Seq<char>, SpecSimpleAttr>) -> bool {
    &&& m.dom() <= set!["type"@, "primary"@, "display"@, "value"@, "$ref"@]
    &&& (m.contains_key("$ref"@) ==> (match m["$ref"@] {
        SpecSimpleAttr::String(s) => url_canon(s) == Some(s),
        _ => true,
    }))
}

/// A photo's map is canonical: as an element map, with a value text that
/// is its own canonical URI form.
pub open spec fn spec_photo_canonical(m: Map<Seq<char>, SpecSimpleAttr>) -> bool {
    &&& spec_mva_canonical(m)
    &&& (m.contains_key("value"@) ==> (match m["value"@] {
        SpecSimpleAttr::String(s) => url_canon(s) == Some(s),
        _ => true,
    }))
}

/// A binary certificate's map is canonical: as an element map, with a
/// value text that is its own canonical base64 form.
pub open spec fn spec_binary_canonical(m: Map<Seq<char>, SpecSimpleAttr>) -> bool {
    &&& spec_mva_canonical(m)
    &&& (m.contains_key("value"@) ==> (match m["value"@] {
        SpecSimpleAttr::String(s) => b64_canon(s) == Some(s),
        _ => true,
    }))
}

/// An address map is canonical: it holds only the address keys.
pub open spec fn spec_address_canonical(m: Map<Seq<char>, SpecSimpleAttr>) -> bool {
    m.dom() <= set![
        "type"@,
        "primary"@,
        "formatted"@,
        "streetAddress"@,
        "locality"@,
        "region"@,
        "postalCode"@,
        "country"@,
    ]
}

/// A name map is canonical: it holds only the name keys.
pub open spec fn spec_name_canonical(m: Map<Seq<char>, SpecSimpleAttr>) -> bool {
    m.dom() <= set![
        "formatted"@,
        "familyName"@,
        "givenName"@,
        "middleName"@,
        "honorificPrefix"@,
        "honorificSuffix"@,
    ]
}

/// A group-membership map is canonical: it holds only the membership
/// keys, and its id and hyperlink texts are their own canonical forms.
pub open spec fn spec_group_ref_canonical(m: Map<Seq<char>, SpecSimpleAttr>) -> bool {
    &&& m.dom() <= set!["type"@, "display"@, "value"@, "$ref"@]
    &&& (m.contains_key("value"@) ==> (match m["value"@] {
        SpecSimpleAttr::String(s) => uuid_canon(s) == Some(s),
        _ => true,
    }))
    &&& (m.contains_key("$ref"@) ==> (match m["$ref"@] {
        SpecSimpleAttr::String(s) => url_canon(s) == Some(s),
        _ => true,
    }))
}

/// Round-trip law at the element level: a canonical element map that
/// decodes, encodes back to exactly itself.
pub proof fn lemma_mva_round_trip(m: Map<Seq<char>, SpecSimpleAttr>, d: SpecMultiValue)
    requires
        spec_mva_decode(m) == Ok::<_, ScimError>(d),
        spec_mva_canonical(m),
    ensures
        spec_mva_encode(d) =~= m,
{
    reveal_strlit("type");
    reveal_strlit("primary");
    reveal_strlit("display");
    reveal_strlit("value");
    reveal_strlit("$ref");
    assert("type"@.len() == 4 && "primary"@.len() == 7 && "display"@.len() == 7);
    assert("value"@.len() == 5 && "$ref"@.len() == 4);
    assert("type"@[0] == 't' && "$ref"@[0] == '$');
    assert("primary"@[0] == 'p' && "display"@[0] == 'd');
    assert(m.contains_key("value"@));
    assert(spec_mva_encode(d) =~= m);
}

/// Round-trip law at the photo level.
pub proof fn lemma_photo_round_trip(m: Map<Seq<char>, SpecSimpleAttr>, d: SpecPhoto)
    requires
        spec_photo_decode(m) == Ok::<_, ScimError>(d),
        spec_photo_canonical(m),
    ensures
        spec_photo_encode(d) =~= m,
{
    reveal_strlit("value");
    let d0 = spec_mva_decode(m)->Ok_0;
    assert(spec_mva_decode(m) is Ok);
    assert(m.contains_key("value"@));
    assert(d.value == d0.value);
    lemma_mva_round_trip(m, d0);
    assert(spec_photo_encode(d) =~= spec_mva_encode(d0));
}

/// Round-trip law at the binary certificate level.
pub proof fn lemma_binary_round_trip(m: Map<Seq<char>, SpecSimpleAttr>, d: SpecBinary)
    requires
        spec_binary_decode(m) == Ok::<_, ScimError>(d),
        spec_binary_canonical(m),
    ensures
        spec_binary_encode(d) =~= m,
{
    reveal_strlit("value");
    let d0 = spec_mva_decode(m)->Ok_0;
    assert(spec_mva_decode(m) is Ok);
    assert(m.contains_key("value"@));
    assert(d.value == d0.value);
    lemma_mva_round_trip(m, d0);
    assert(spec_binary_encode(d) =~= spec_mva_encode(d0));
}

/// Round-trip law at the address level.
pub proof fn lemma_address_round_trip(m: Map<Seq<char>, SpecSimpleAttr>, d: SpecAddress)
    requires
        spec_address_decode(m) == Ok::<_, ScimError>(d),
        spec_address_canonical(m),
    ensures
        spec_address_encode(d) =~= m,
{
    reveal_strlit("type");
    reveal_strlit("primary");
    reveal_strlit("formatted");
    reveal_strlit("streetAddress");
    reveal_strlit("locality");
    reveal_strlit("region");
    reveal_strlit("postalCode");
    reveal_strlit("country");
    assert("type"@.len() == 4 && "primary"@.len() == 7 && "formatted"@.len() == 9);
    assert("streetAddress"@.len() == 13 && "locality"@.len() == 8 && "region"@.len() == 6);
    assert("postalCode"@.len() == 10 && "country"@.len() == 7);
    assert("primary"@[0] == 'p' && "country"@[0] == 'c');
    assert(spec_address_encode(d) =~= m);
}

/// Round-trip law at the name level.
pub proof fn lemma_name_round_trip(m: Map<Seq<char>, SpecSimpleAttr>, d: SpecName)
    requires
        spec_name_decode(m) == Ok::<_, ScimError>(d),
        spec_name_canonical(m),
    ensures
        spec_name_encode(d) =~= m,
{
    reveal_strlit("formatted");
    reveal_strlit("familyName");
    reveal_strlit("givenName");
    reveal_strlit("middleName");
    reveal_strlit("honorificPrefix");
    reveal_strlit("honorificSuffix");
    assert("formatted"@.len() == 9 && "familyName"@.len() == 10 && "givenName"@.len() == 9);
    assert("middleName"@.len() == 10 && "honorificPrefix"@.len() == 15);
    assert("honorificSuffix"@.len() == 15);
    assert("formatted"@[0] == 'f' && "givenName"@[0] == 'g');
    assert("familyName"@[0] == 'f' && "middleName"@[0] == 'm');
    assert("honorificPrefix"@[9] == 'P' && "honorificSuffix"@[9] == 'S');
    assert(spec_name_encode(d) =~= m);
}

/// Round-trip law at the group-membership level.
pub proof fn lemma_group_ref_round_trip(m: Map<Seq<char>, SpecSimpleAttr>, d: SpecGroupRef)
    requires
        spec_group_ref_decode(m) == Ok::<_, ScimError>(d),
        spec_group_ref_canonical(m),
    ensures
        spec_group_ref_encode(d) =~= m,
{
    reveal_strlit("type");
    reveal_strlit("display");
    reveal_strlit("value");
    reveal_strlit("$ref");
    assert("type"@.len() == 4 && "display"@.len() == 7 && "value"@.len() == 5);
    assert("$ref"@.len() == 4);
    assert("type"@[0] == 't' && "$ref"@[0] == '$');
    assert(m.contains_key("display"@));
    assert(m.contains_key("value"@));
    assert(m.contains_key("$ref"@));
    assert(spec_group_ref_encode(d) =~= m);
}

/// Round-trip law for a list of elements, element by element.
pub proof fn lemma_mvas_round_trip(ms: Seq<Map<Seq<char>, SpecSimpleAttr>>, t: Seq<SpecMultiValue>)
    requires
        spec_mvas_decode(ms) == Ok::<_, ScimError>(t),
        forall|i: int| 0 <= i < ms.len() ==> spec_mva_canonical(#[trigger] ms[i]),
    ensures
        t.map_values(|d: SpecMultiValue| spec_mva_encode(d)) =~~= ms,
    decreases ms.len(),
{
    if ms.len() > 0 {
        let pre = spec_mvas_decode(ms.drop_last())->Ok_0;
        let ld = spec_mva_decode(ms.last())->Ok_0;
        assert(spec_mvas_decode(ms.drop_last()) is Ok);
        assert(t == pre.push(ld));
        assert forall|i: int| 0 <= i < ms.drop_last().len() implies spec_mva_canonical(
            #[trigger] ms.drop_last()[i]) by {
            assert(spec_mva_canonical(ms[i]));
        }
        lemma_mvas_round_trip(ms.drop_last(), pre);
        assert(spec_mva_canonical(ms[ms.len() - 1]));
        lemma_mva_round_trip(ms.last(), ld);
        assert forall|j: int| 0 <= j < ms.len() implies t.map_values(
            |d: SpecMultiValue| spec_mva_encode(d))[j] =~~= ms[j] by {
            if j < ms.len() - 1 {
                assert(t[j] == pre[j]);
                assert(spec_mva_encode(pre[j]) == pre.map_values(
                    |d: SpecMultiValue| spec_mva_encode(d))[j]);
                assert(ms.drop_last()[j] == ms[j]);
            } else {
                assert(t[j] == ld);
            }
        }
        assert(t.map_values(|d: SpecMultiValue| spec_mva_encode(d)) =~~= ms);
    } else {
        assert(t.map_values(|d: SpecMultiValue| spec_mva_encode(d)) =~~= ms);
    }
}

/// Round-trip law for a list of photos, element by element.
pub proof fn lemma_photos_round_trip(ms: Seq<Map<Seq<char>, SpecSimpleAttr>>, t: Seq<SpecPhoto>)
    requires
        spec_photos_decode(ms) == Ok::<_, ScimError>(t),
        forall|i: int| 0 <= i < ms.len() ==> spec_photo_canonical(#[trigger] ms[i]),
    ensures
        t.map_values(|d: SpecPhoto| spec_photo_encode(d)) =~~= ms,
    decreases ms.len(),
{
    if ms.len() > 0 {
        let pre = spec_photos_decode(ms.drop_last())->Ok_0;
        let ld = spec_photo_decode(ms.last())->Ok_0;
        assert(spec_photos_decode(ms.drop_last()) is Ok);
        assert(t == pre.push(ld));
        assert forall|i: int| 0 <= i < ms.drop_last().len() implies spec_photo_canonical(
            #[trigger] ms.drop_last()[i]) by {
            assert(spec_photo_canonical(ms[i]));
        }
        lemma_photos_round_trip(ms.drop_last(), pre);
        assert(spec_photo_canonical(ms[ms.len() - 1]));
        lemma_photo_round_trip(ms.last(), ld);
        assert forall|j: int| 0 <= j < ms.len() implies t.map_values(
            |d: SpecPhoto| spec_photo_encode(d))[j] =~~= ms[j] by {
            if j < ms.len() - 1 {
                assert(t[j] == pre[j]);
                assert(spec_photo_encode(pre[j]) == pre.map_values(
                    |d: SpecPhoto| spec_photo_encode(d))[j]);
                assert(ms.drop_last()[j] == ms[j]);
            } else {
                assert(t[j] == ld);
            }
        }
        assert(t.map_values(|d: SpecPhoto| spec_photo_encode(d)) =~~= ms);
    } else {
        assert(t.map_values(|d: SpecPhoto| spec_photo_encode(d)) =~~= ms);
    }
}

/// Round-trip law for a list of binary certificates, element by element.
pub proof fn lemma_binaries_round_trip(ms: Seq<Map<Seq<char>, SpecSimpleAttr>>, t: Seq<SpecBinary>)
    requires
        spec_binaries_decode(ms) == Ok::<_, ScimError>(t),
        forall|i: int| 0 <= i < ms.len() ==> spec_binary_canonical(#[trigger] ms[i]),
    ensures
        t.map_values(|d: SpecBinary| spec_binary_encode(d)) =~~= ms,
    decreases ms.len(),
{
    if ms.len() > 0 {
        let pre = spec_binaries_decode(ms.drop_last())->Ok_0;
        let ld = spec_binary_decode(ms.last())->Ok_0;
        assert(spec_binaries_decode(ms.drop_last()) is Ok);
        assert(t == pre.push(ld));
        assert forall|i: int| 0 <= i < ms.drop_last().len() implies spec_binary_canonical(
            #[trigger] ms.drop_last()[i]) by {
            assert(spec_binary_canonical(ms[i]));
        }
        lemma_binaries_round_trip(ms.drop_last(), pre);
        assert(spec_binary_canonical(ms[ms.len() - 1]));
        lemma_binary_round_trip(ms.last(), ld);
        assert forall|j: int| 0 <= j < ms.len() implies t.map_values(
            |d: SpecBinary| spec_binary_encode(d))[j] =~~= ms[j] by {
            if j < ms.len() - 1 {
                assert(t[j] == pre[j]);
                assert(spec_binary_encode(pre[j]) == pre.map_values(
                    |d: SpecBinary| spec_binary_encode(d))[j]);
                assert(ms.drop_last()[j] == ms[j]);
            } else {
                assert(t[j] == ld);
            }
        }
        assert(t.map_values(|d: SpecBinary| spec_binary_encode(d)) =~~= ms);
    } else {
        assert(t.map_values(|d: SpecBinary| spec_binary_encode(d)) =~~= ms);
    }
}

/// Round-trip law for a list of addresses, element by element.
pub proof fn lemma_addresses_round_trip(
    ms: Seq<Map<Seq<char>, SpecSimpleAttr>>,
    t: Seq<SpecAddress>,
)
    requires
        spec_addresses_decode(ms) == Ok::<_, ScimError>(t),
        forall|i: int| 0 <= i < ms.len() ==> spec_address_canonical(#[trigger] ms[i]),
    ensures
        t.map_values(|d: SpecAddress| spec_address_encode(d)) =~~= ms,
    decreases ms.len(),
{
    if ms.len() > 0 {
        let pre = spec_addresses_decode(ms.drop_last())->Ok_0;
        let ld = spec_address_decode(ms.last())->Ok_0;
        assert(spec_addresses_decode(ms.drop_last()) is Ok);
        assert(t == pre.push(ld));
        assert forall|i: int| 0 <= i < ms.drop_last().len() implies spec_address_canonical(
            #[trigger] ms.drop_last()[i]) by {
            assert(spec_address_canonical(ms[i]));
        }
        lemma_addresses_round_trip(ms.drop_last(), pre);
        assert(spec_address_canonical(ms[ms.len() - 1]));
        lemma_address_round_trip(ms.last(), ld);
        assert forall|j: int| 0 <= j < ms.len() implies t.map_values(
            |d: SpecAddress| spec_address_encode(d))[j] =~~= ms[j] by {
            if j < ms.len() - 1 {
                assert(t[j] == pre[j]);
                assert(spec_address_encode(pre[j]) == pre.map_values(
                    |d: SpecAddress| spec_address_encode(d))[j]);
                assert(ms.drop_last()[j] == ms[j]);
            } else {
                assert(t[j] == ld);
            }
        }
        assert(t.map_values(|d: SpecAddress| spec_address_encode(d)) =~~= ms);
    } else {
        assert(t.map_values(|d: SpecAddress| spec_address_encode(d)) =~~= ms);
    }
}

/// Round-trip law for a list of group-membership references, element by
/// element.
pub proof fn lemma_group_refs_round_trip(
    ms: Seq<Map<Seq<char>, SpecSimpleAttr>>,
    t: Seq<SpecGroupRef>,
)
    requires
        spec_group_refs_decode(ms) == Ok::<_, ScimError>(t),
        forall|i: int| 0 <= i < ms.len() ==> spec_group_ref_canonical(#[trigger] ms[i]),
    ensures
        t.map_values(|d: SpecGroupRef| spec_group_ref_encode(d)) =~~= ms,
    decreases ms.len(),
{
    if ms.len() > 0 {
        let pre = spec_group_refs_decode(ms.drop_last())->Ok_0;
        let ld = spec_group_ref_decode(ms.last())->Ok_0;
        assert(spec_group_refs_decode(ms.drop_last()) is Ok);
        assert(t == pre.push(ld));
        assert forall|i: int| 0 <= i < ms.drop_last().len() implies spec_group_ref_canonical(
            #[trigger] ms.drop_last()[i]) by {
            assert(spec_group_ref_canonical(ms[i]));
        }
        lemma_group_refs_round_trip(ms.drop_last(), pre);
        assert(spec_group_ref_canonical(ms[ms.len() - 1]));
        lemma_group_ref_round_trip(ms.last(), ld);
        assert forall|j: int| 0 <= j < ms.len() implies t.map_values(
            |d: SpecGroupRef| spec_group_ref_encode(d))[j] =~~= ms[j] by {
            if j < ms.len() - 1 {
                assert(t[j] == pre[j]);
                assert(spec_group_ref_encode(pre[j]) == pre.map_values(
                    |d: SpecGroupRef| spec_group_ref_encode(d))[j]);
                assert(ms.drop_last()[j] == ms[j]);
            } else {
                assert(t[j] == ld);
            }
        }
        assert(t.map_values(|d: SpecGroupRef| spec_group_ref_encode(d)) =~~= ms);
    } else {
        assert(t.map_values(|d: SpecGroupRef| spec_group_ref_encode(d)) =~~= ms);
    }
}

/// Optional-field defaulting: a User entry without an emails attribute
/// decodes (when it decodes at all) to the empty emails list.
#[verifier::rlimit(100)]
pub proof fn lemma_user_optional_emails(e: SpecEntry)
    requires
        spec_user_decode(e) is Ok,
        !e.attrs.contains_key("emails"@),
    ensures
        spec_user_decode(e)->Ok_0.emails == Seq::<SpecMultiValue>::empty(),
{
    reveal_strlit("emails");
    let m12 = spec_scalars_rest(e.attrs);
    assert(!m12.contains_key("emails"@));
    assert(take_opt_multi(m12, "emails"@) == Ok::<_, ScimError>(
        Seq::<Map<Seq<char>, SpecSimpleAttr>>::empty()));
}

} // verus!
