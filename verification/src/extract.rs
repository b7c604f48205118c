//! Generic extraction combinators over the attribute maps: remove a key,
//! match the expected shape, and map the failure to the shared error kind.
//! Each combinator's contract is stated by a spec function of the map it
//! started from, so that a resource decoder's contract is the chain of its
//! fields' extractions.

use vstd::prelude::*;

use crate::attr::{ScimAttr, ScimComplexAttr, ScimSimpleAttr, SpecAttr, SpecSimpleAttr};
use crate::attrmap::AttrMap;
use crate::canon::{canon_rfc3339, canon_url, canon_uuid, rfc3339_canon, url_canon, uuid_canon};
use crate::error::ScimError;

verus! {

/// A required scalar string sub-attribute.
pub open spec fn take_req_string(m: Map<Seq<char>, SpecSimpleAttr>, k: Seq<char>) -> Result<
    Seq<char>,
    ScimError,
> {
    if !m.contains_key(k) {
        Err(ScimError::MissingRequiredAttribute)
    } else {
        match m[k] {
            SpecSimpleAttr::String(s) => Ok(s),
            _ => Err(ScimError::InvalidAttribute),
        }
    }
}

/// An optional scalar string sub-attribute.
pub open spec fn take_opt_string(m: Map<Seq<char>, SpecSimpleAttr>, k: Seq<char>) -> Result<
    Option<Seq<char>>,
    ScimError,
> {
    if !m.contains_key(k) {
        Ok(None)
    } else {
        match m[k] {
            SpecSimpleAttr::String(s) => Ok(Some(s)),
            _ => Err(ScimError::InvalidAttribute),
        }
    }
}

/// An optional scalar boolean sub-attribute.
pub open spec fn take_opt_bool(m: Map<Seq<char>, SpecSimpleAttr>, k: Seq<char>) -> Result<
    Option<bool>,
    ScimError,
> {
    if !m.contains_key(k) {
        Ok(None)
    } else {
        match m[k] {
            SpecSimpleAttr::Bool(b) => Ok(Some(b)),
            _ => Err(ScimError::InvalidAttribute),
        }
    }
}

/// A required string sub-attribute holding a UUID, taken to its canonical
/// form.
pub open spec fn take_req_uuid(m: Map<Seq<char>, SpecSimpleAttr>, k: Seq<char>) -> Result<
    Seq<char>,
    ScimError,
> {
    match take_req_string(m, k) {
        Err(e) => Err(e),
        Ok(s) => match uuid_canon(s) {
            Some(c) => Ok(c),
            None => Err(ScimError::InvalidAttribute),
        },
    }
}

/// A required string sub-attribute holding a URI, taken to its canonical
/// form.
pub open spec fn take_req_url(m: Map<Seq<char>, SpecSimpleAttr>, k: Seq<char>) -> Result<
    Seq<char>,
    ScimError,
> {
    match take_req_string(m, k) {
        Err(e) => Err(e),
        Ok(s) => match url_canon(s) {
            Some(c) => Ok(c),
            None => Err(ScimError::InvalidAttribute),
        },
    }
}

/// An optional string sub-attribute holding a URI, taken to its canonical
/// form.
pub open spec fn take_opt_url(m: Map<Seq<char>, SpecSimpleAttr>, k: Seq<char>) -> Result<
    Option<Seq<char>>,
    ScimError,
> {
    match take_opt_string(m, k) {
        Err(e) => Err(e),
        Ok(None) => Ok(None),
        Ok(Some(s)) => match url_canon(s) {
            Some(c) => Ok(Some(c)),
            None => Err(ScimError::InvalidAttribute),
        },
    }
}

/// A required string sub-attribute holding an RFC3339 timestamp, taken to
/// its canonical form.
pub open spec fn take_req_rfc3339(m: Map<Seq<char>, SpecSimpleAttr>, k: Seq<char>) -> Result<
    Seq<char>,
    ScimError,
> {
    match take_req_string(m, k) {
        Err(e) => Err(e),
        Ok(s) => match rfc3339_canon(s) {
            Some(c) => Ok(c),
            None => Err(ScimError::InvalidAttribute),
        },
    }
}

/// Remove a required string sub-attribute.
pub fn get_string(attrs: &mut AttrMap<ScimSimpleAttr>, key: &str) -> (r: Result<String, ScimError>)
    requires
        old(attrs).wf(),
    ensures
        final(attrs).wf(),
        final(attrs)@ == old(attrs)@.remove(key@),
        match r {
            Ok(s) => take_req_string(old(attrs)@, key@) == Ok::<_, ScimError>(s@),
            Err(e) => take_req_string(old(attrs)@, key@) == Err::<Seq<char>, _>(e),
        },
{
    match attrs.remove(key) {
        None => Err(ScimError::MissingRequiredAttribute),
        Some(ScimSimpleAttr::String(s)) => Ok(s),
        Some(_) => Err(ScimError::InvalidAttribute),
    }
}

/// Remove an optional string sub-attribute.
pub fn get_option_string(attrs: &mut AttrMap<ScimSimpleAttr>, key: &str) -> (r: Result<
    Option<String>,
    ScimError,
>)
    requires
        old(attrs).wf(),
    ensures
        final(attrs).wf(),
        final(attrs)@ == old(attrs)@.remove(key@),
        match r {
            Ok(None) => take_opt_string(old(attrs)@, key@) == Ok::<Option<Seq<char>>, ScimError>(
                None),
            Ok(Some(s)) => take_opt_string(old(attrs)@, key@) == Ok::<_, ScimError>(Some(s@)),
            Err(e) => take_opt_string(old(attrs)@, key@) == Err::<Option<Seq<char>>, _>(e),
        },
{
    match attrs.remove(key) {
        None => Ok(None),
        Some(ScimSimpleAttr::String(s)) => Ok(Some(s)),
        Some(_) => Err(ScimError::InvalidAttribute),
    }
}

/// Remove an optional boolean sub-attribute.
pub fn get_option_bool(attrs: &mut AttrMap<ScimSimpleAttr>, key: &str) -> (r: Result<
    Option<bool>,
    ScimError,
>)
    requires
        old(attrs).wf(),
    ensures
        final(attrs).wf(),
        final(attrs)@ == old(attrs)@.remove(key@),
        match r {
            Ok(ob) => take_opt_bool(old(attrs)@, key@) == Ok::<_, ScimError>(ob),
            Err(e) => take_opt_bool(old(attrs)@, key@) == Err::<Option<bool>, _>(e),
        },
{
    match attrs.remove(key) {
        None => Ok(None),
        Some(ScimSimpleAttr::Bool(b)) => Ok(Some(b)),
        Some(_) => Err(ScimError::InvalidAttribute),
    }
}

/// Remove a required UUID sub-attribute and canonicalize it.
pub fn get_uuid(attrs: &mut AttrMap<ScimSimpleAttr>, key: &str) -> (r: Result<String, ScimError>)
    requires
        old(attrs).wf(),
    ensures
        final(attrs).wf(),
        final(attrs)@ == old(attrs)@.remove(key@),
        match r {
            Ok(s) => take_req_uuid(old(attrs)@, key@) == Ok::<_, ScimError>(s@)
                && uuid_canon(s@) == Some(s@),
            Err(e) => take_req_uuid(old(attrs)@, key@) == Err::<Seq<char>, _>(e),
        },
{
    match attrs.remove(key) {
        None => Err(ScimError::MissingRequiredAttribute),
        Some(ScimSimpleAttr::String(s)) => match canon_uuid(s.as_str()) {
            Some(c) => Ok(c),
            None => Err(ScimError::InvalidAttribute),
        },
        Some(_) => Err(ScimError::InvalidAttribute),
    }
}

/// Remove a required URI sub-attribute and canonicalize it.
pub fn get_url(attrs: &mut AttrMap<ScimSimpleAttr>, key: &str) -> (r: Result<String, ScimError>)
    requires
        old(attrs).wf(),
    ensures
        final(attrs).wf(),
        final(attrs)@ == old(attrs)@.remove(key@),
        match r {
            Ok(s) => take_req_url(old(attrs)@, key@) == Ok::<_, ScimError>(s@)
                && url_canon(s@) == Some(s@),
            Err(e) => take_req_url(old(attrs)@, key@) == Err::<Seq<char>, _>(e),
        },
{
    match attrs.remove(key) {
        None => Err(ScimError::MissingRequiredAttribute),
        Some(ScimSimpleAttr::String(s)) => match canon_url(s.as_str()) {
            Some(c) => Ok(c),
            None => Err(ScimError::InvalidAttribute),
        },
        Some(_) => Err(ScimError::InvalidAttribute),
    }
}

/// Remove an optional URI sub-attribute and canonicalize it.
pub fn get_option_url(attrs: &mut AttrMap<ScimSimpleAttr>, key: &str) -> (r: Result<
    Option<String>,
    ScimError,
>)
    requires
        old(attrs).wf(),
    ensures
        final(attrs).wf(),
        final(attrs)@ == old(attrs)@.remove(key@),
        match r {
            Ok(None) => take_opt_url(old(attrs)@, key@) == Ok::<Option<Seq<char>>, ScimError>(
                None),
            Ok(Some(s)) => take_opt_url(old(attrs)@, key@) == Ok::<_, ScimError>(Some(s@))
                && url_canon(s@) == Some(s@),
            Err(e) => take_opt_url(old(attrs)@, key@) == Err::<Option<Seq<char>>, _>(e),
        },
{
    match attrs.remove(key) {
        None => Ok(None),
        Some(ScimSimpleAttr::String(s)) => match canon_url(s.as_str()) {
            Some(c) => Ok(Some(c)),
            None => Err(ScimError::InvalidAttribute),
        },
        Some(_) => Err(ScimError::InvalidAttribute),
    }
}

/// Remove a required RFC3339 timestamp sub-attribute and canonicalize it.
pub fn get_rfc3339(attrs: &mut AttrMap<ScimSimpleAttr>, key: &str) -> (r: Result<String, ScimError>)
    requires
        old(attrs).wf(),
    ensures
        final(attrs).wf(),
        final(attrs)@ == old(attrs)@.remove(key@),
        match r {
            Ok(s) => take_req_rfc3339(old(attrs)@, key@) == Ok::<_, ScimError>(s@)
                && rfc3339_canon(s@) == Some(s@),
            Err(e) => take_req_rfc3339(old(attrs)@, key@) == Err::<Seq<char>, _>(e),
        },
{
    match attrs.remove(key) {
        None => Err(ScimError::MissingRequiredAttribute),
        Some(ScimSimpleAttr::String(s)) => match canon_rfc3339(s.as_str()) {
            Some(c) => Ok(c),
            None => Err(ScimError::InvalidAttribute),
        },
        Some(_) => Err(ScimError::InvalidAttribute),
    }
}

/// A required single-valued simple string attribute of a resource.
pub open spec fn take_req_sstring(m: Map<Seq<char>, SpecAttr>, k: Seq<char>) -> Result<
    Seq<char>,
    ScimError,
> {
    if !m.contains_key(k) {
        Err(ScimError::MissingRequiredAttribute)
    } else {
        match m[k] {
            SpecAttr::SingleSimple(SpecSimpleAttr::String(s)) => Ok(s),
            _ => Err(ScimError::InvalidAttribute),
        }
    }
}

/// A required single-valued simple boolean attribute of a resource.
pub open spec fn take_req_sbool(m: Map<Seq<char>, SpecAttr>, k: Seq<char>) -> Result<
    bool,
    ScimError,
> {
    if !m.contains_key(k) {
        Err(ScimError::MissingRequiredAttribute)
    } else {
        match m[k] {
            SpecAttr::SingleSimple(SpecSimpleAttr::Bool(b)) => Ok(b),
            _ => Err(ScimError::InvalidAttribute),
        }
    }
}

/// An optional single-valued simple string attribute of a resource.
pub open spec fn take_opt_sstring(m: Map<Seq<char>, SpecAttr>, k: Seq<char>) -> Result<
    Option<Seq<char>>,
    ScimError,
> {
    if !m.contains_key(k) {
        Ok(None)
    } else {
        match m[k] {
            SpecAttr::SingleSimple(SpecSimpleAttr::String(s)) => Ok(Some(s)),
            _ => Err(ScimError::InvalidAttribute),
        }
    }
}

/// An optional single-valued URI attribute of a resource, canonicalized.
pub open spec fn take_opt_surl(m: Map<Seq<char>, SpecAttr>, k: Seq<char>) -> Result<
    Option<Seq<char>>,
    ScimError,
> {
    match take_opt_sstring(m, k) {
        Err(e) => Err(e),
        Ok(None) => Ok(None),
        Ok(Some(s)) => match url_canon(s) {
            Some(c) => Ok(Some(c)),
            None => Err(ScimError::InvalidAttribute),
        },
    }
}

/// An optional single-valued complex attribute of a resource.
pub open spec fn take_opt_scomplex(m: Map<Seq<char>, SpecAttr>, k: Seq<char>) -> Result<
    Option<Map<Seq<char>, SpecSimpleAttr>>,
    ScimError,
> {
    if !m.contains_key(k) {
        Ok(None)
    } else {
        match m[k] {
            SpecAttr::SingleComplex(cm) => Ok(Some(cm)),
            _ => Err(ScimError::InvalidAttribute),
        }
    }
}

/// An optional multi-valued complex attribute of a resource; an absent key
/// is the empty sequence.
pub open spec fn take_opt_multi(m: Map<Seq<char>, SpecAttr>, k: Seq<char>) -> Result<
    Seq<Map<Seq<char>, SpecSimpleAttr>>,
    ScimError,
> {
    if !m.contains_key(k) {
        Ok(Seq::empty())
    } else {
        match m[k] {
            SpecAttr::MultiComplex(ms) => Ok(ms),
            _ => Err(ScimError::InvalidAttribute),
        }
    }
}

/// Remove a required single-valued simple string attribute.
pub fn get_single_string(attrs: &mut AttrMap<ScimAttr>, key: &str) -> (r: Result<String, ScimError>)
    requires
        old(attrs).wf(),
    ensures
        final(attrs).wf(),
        final(attrs)@ == old(attrs)@.remove(key@),
        entry_attrs_wf(old(attrs)) ==> entry_attrs_wf(final(attrs)),
        match r {
            Ok(s) => take_req_sstring(old(attrs)@, key@) == Ok::<_, ScimError>(s@),
            Err(e) => take_req_sstring(old(attrs)@, key@) == Err::<Seq<char>, _>(e),
        },
{
    match attrs.remove(key) {
        None => Err(ScimError::MissingRequiredAttribute),
        Some(ScimAttr::SingleSimple(ScimSimpleAttr::String(s))) => Ok(s),
        Some(_) => Err(ScimError::InvalidAttribute),
    }
}

/// Remove a required single-valued simple boolean attribute.
pub fn get_single_bool(attrs: &mut AttrMap<ScimAttr>, key: &str) -> (r: Result<bool, ScimError>)
    requires
        old(attrs).wf(),
    ensures
        final(attrs).wf(),
        final(attrs)@ == old(attrs)@.remove(key@),
        entry_attrs_wf(old(attrs)) ==> entry_attrs_wf(final(attrs)),
        match r {
            Ok(b) => take_req_sbool(old(attrs)@, key@) == Ok::<_, ScimError>(b),
            Err(e) => take_req_sbool(old(attrs)@, key@) == Err::<bool, _>(e),
        },
{
    match attrs.remove(key) {
        None => Err(ScimError::MissingRequiredAttribute),
        Some(ScimAttr::SingleSimple(ScimSimpleAttr::Bool(b))) => Ok(b),
        Some(_) => Err(ScimError::InvalidAttribute),
    }
}

/// Remove an optional single-valued simple string attribute.
pub fn get_option_single_string(attrs: &mut AttrMap<ScimAttr>, key: &str) -> (r: Result<
    Option<String>,
    ScimError,
>)
    requires
        old(attrs).wf(),
    ensures
        final(attrs).wf(),
        final(attrs)@ == old(attrs)@.remove(key@),
        entry_attrs_wf(old(attrs)) ==> entry_attrs_wf(final(attrs)),
        match r {
            Ok(None) => take_opt_sstring(old(attrs)@, key@) == Ok::<Option<Seq<char>>, ScimError>(
                None),
            Ok(Some(s)) => take_opt_sstring(old(attrs)@, key@) == Ok::<_, ScimError>(Some(s@)),
            Err(e) => take_opt_sstring(old(attrs)@, key@) == Err::<Option<Seq<char>>, _>(e),
        },
{
    match attrs.remove(key) {
        None => Ok(None),
        Some(ScimAttr::SingleSimple(ScimSimpleAttr::String(s))) => Ok(Some(s)),
        Some(_) => Err(ScimError::InvalidAttribute),
    }
}

/// Remove an optional single-valued URI attribute and canonicalize it.
pub fn get_option_single_url(attrs: &mut AttrMap<ScimAttr>, key: &str) -> (r: Result<
    Option<String>,
    ScimError,
>)
    requires
        old(attrs).wf(),
    ensures
        final(attrs).wf(),
        final(attrs)@ == old(attrs)@.remove(key@),
        entry_attrs_wf(old(attrs)) ==> entry_attrs_wf(final(attrs)),
        match r {
            Ok(None) => take_opt_surl(old(attrs)@, key@) == Ok::<Option<Seq<char>>, ScimError>(
                None),
            Ok(Some(s)) => take_opt_surl(old(attrs)@, key@) == Ok::<_, ScimError>(Some(s@))
                && url_canon(s@) == Some(s@),
            Err(e) => take_opt_surl(old(attrs)@, key@) == Err::<Option<Seq<char>>, _>(e),
        },
{
    match attrs.remove(key) {
        None => Ok(None),
        Some(ScimAttr::SingleSimple(ScimSimpleAttr::String(s))) => match canon_url(s.as_str()) {
            Some(c) => Ok(Some(c)),
            None => Err(ScimError::InvalidAttribute),
        },
        Some(_) => Err(ScimError::InvalidAttribute),
    }
}

/// Remove an optional single-valued complex attribute.
pub fn get_option_single_complex(attrs: &mut AttrMap<ScimAttr>, key: &str) -> (r: Result<
    Option<ScimComplexAttr>,
    ScimError,
>)
    requires
        old(attrs).wf(),
    ensures
        final(attrs).wf(),
        final(attrs)@ == old(attrs)@.remove(key@),
        entry_attrs_wf(old(attrs)) ==> entry_attrs_wf(final(attrs)),
        match r {
            Ok(None) => take_opt_scomplex(old(attrs)@, key@) == Ok::<
                Option<Map<Seq<char>, SpecSimpleAttr>>,
                ScimError,
            >(None),
            Ok(Some(c)) => take_opt_scomplex(old(attrs)@, key@) == Ok::<_, ScimError>(Some(
                c.deep_view())) && (entry_attrs_wf(old(attrs)) ==> c.wf()),
            Err(e) => take_opt_scomplex(old(attrs)@, key@) == Err::<
                Option<Map<Seq<char>, SpecSimpleAttr>>,
                _,
            >(e),
        },
{
    match attrs.remove(key) {
        None => Ok(None),
        Some(ScimAttr::SingleComplex(c)) => Ok(Some(c)),
        Some(_) => Err(ScimError::InvalidAttribute),
    }
}

/// Remove an optional multi-valued complex attribute; an absent key yields
/// the empty list.
pub fn get_option_multi_complex(attrs: &mut AttrMap<ScimAttr>, key: &str) -> (r: Result<
    Vec<ScimComplexAttr>,
    ScimError,
>)
    requires
        old(attrs).wf(),
    ensures
        final(attrs).wf(),
        final(attrs)@ == old(attrs)@.remove(key@),
        entry_attrs_wf(old(attrs)) ==> entry_attrs_wf(final(attrs)),
        match r {
            Ok(v) => take_opt_multi(old(attrs)@, key@) == Ok::<_, ScimError>(v.deep_view())
                && (entry_attrs_wf(old(attrs)) ==> forall|i: int| 0 <= i < v@.len() ==> (
                #[trigger] v@[i]).wf()),
            Err(e) => take_opt_multi(old(attrs)@, key@) == Err::<
                Seq<Map<Seq<char>, SpecSimpleAttr>>,
                _,
            >(e),
        },
{
    match attrs.remove(key) {
        None => {
            let v: Vec<ScimComplexAttr> = Vec::new();
            proof {
                assert(v.deep_view() =~= Seq::<Map<Seq<char>, SpecSimpleAttr>>::empty());
            }
            Ok(v)
        },
        Some(ScimAttr::MultiComplex(v)) => Ok(v),
        Some(_) => Err(ScimError::InvalidAttribute),
    }
}

/// Every attribute value stored in a resource's map is well-formed.
pub open spec fn entry_attrs_wf(m: &AttrMap<ScimAttr>) -> bool {
    forall|i: int| 0 <= i < m.entries@.len() ==> (#[trigger] m.entries@[i]).1.wf()
}

} // verus!
