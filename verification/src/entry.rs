//! The generic resource record: schema identifiers, id, optional external
//! id, optional metadata block, and the map of everything else, together
//! with its decode from and encode to the wire value model.

use vstd::prelude::*;

use crate::attr::{
    spec_attr_from_wire, spec_attr_to_wire, spec_complex_from_obj, spec_complex_to_wire,
    spec_obj_scalars,
    ScimAttr, ScimComplexAttr, ScimSimpleAttr, SpecAttr, SpecSimpleAttr,
};
use crate::attrmap::{
    entry_views, lemma_map_values_insert, lemma_pairs_map_contains, lemma_pairs_map_index,
    lemma_pairs_map_map_values, AttrMap,
};
use crate::canon::{canon_uuid, rfc3339_canon, url_canon, uuid_canon};
use crate::error::ScimError;
use crate::extract::{
    entry_attrs_wf, get_rfc3339, get_string, get_url, take_req_rfc3339, take_req_string,
    take_req_url,
};
use crate::wire::{
    lemma_wire_view_pairs, lemma_wire_view_seq, lemma_wire_wf_pairs, lemma_wire_wf_seq,
    pairs_map, pairs_unique, wire_view, wire_view_pairs, wire_view_seq, wire_wf, SpecWire,
    WireValue,
};

verus! {

broadcast use {vstd::map::group_map_axioms, vstd::set::group_set_axioms, vstd::seq::group_seq_axioms};

/// View of a resource's metadata block.
#[verifier::ext_equal]
pub struct SpecMeta {
    pub resource_type: Seq<char>,
    pub created: Seq<char>,
    pub last_modified: Seq<char>,
    pub location: Seq<char>,
    pub version: Seq<char>,
}

/// A resource's metadata block. The timestamps are canonical RFC3339 text
/// and the location is a canonical URI.
#[derive(Debug, Clone, PartialEq, Eq)]
pub struct ScimMeta {
    pub resource_type: String,
    pub created: String,
    pub last_modified: String,
    pub location: String,
    pub version: String,
}

impl DeepView for ScimMeta {
    type V = SpecMeta;

    open spec fn deep_view(&self) -> SpecMeta {
        SpecMeta {
            resource_type: self.resource_type@,
            created: self.created@,
            last_modified: self.last_modified@,
            location: self.location@,
            version: self.version@,
        }
    }
}

/// Well-formed metadata: its timestamps and location are their own
/// canonical forms.
pub open spec fn spec_meta_wf(d: SpecMeta) -> bool {
    &&& rfc3339_canon(d.created) == Some(d.created)
    &&& rfc3339_canon(d.last_modified) == Some(d.last_modified)
    &&& url_canon(d.location) == Some(d.location)
}

/// Decode of a complex attribute map into metadata: every field is
/// required, the timestamps must parse as RFC3339 and the location as a
/// URI, and the first failure propagates.
pub open spec fn spec_meta_decode(m0: Map<Seq<char>, SpecSimpleAttr>) -> Result<
    SpecMeta,
    ScimError,
> {
    let r1 = take_req_string(m0, "resourceType"@);
    let m1 = m0.remove("resourceType"@);
    let r2 = take_req_rfc3339(m1, "created"@);
    let m2 = m1.remove("created"@);
    let r3 = take_req_rfc3339(m2, "lastModified"@);
    let m3 = m2.remove("lastModified"@);
    let r4 = take_req_url(m3, "location"@);
    let m4 = m3.remove("location"@);
    let r5 = take_req_string(m4, "version"@);
    if r1 is Err {
        Err(r1->Err_0)
    } else if r2 is Err {
        Err(r2->Err_0)
    } else if r3 is Err {
        Err(r3->Err_0)
    } else if r4 is Err {
        Err(r4->Err_0)
    } else if r5 is Err {
        Err(r5->Err_0)
    } else {
        Ok(SpecMeta {
            resource_type: r1->Ok_0,
            created: r2->Ok_0,
            last_modified: r3->Ok_0,
            location: r4->Ok_0,
            version: r5->Ok_0,
        })
    }
}

/// Encode of metadata back into a complex attribute map: every field is
/// written.
pub open spec fn spec_meta_encode(d: SpecMeta) -> Map<Seq<char>, SpecSimpleAttr> {
    Map::empty()
        .insert("resourceType"@, SpecSimpleAttr::String(d.resource_type))
        .insert("created"@, SpecSimpleAttr::String(d.created))
        .insert("lastModified"@, SpecSimpleAttr::String(d.last_modified))
        .insert("location"@, SpecSimpleAttr::String(d.location))
        .insert("version"@, SpecSimpleAttr::String(d.version))
}

impl ScimMeta {
    /// Well-formedness of the metadata block.
    pub open spec fn wf(&self) -> bool {
        spec_meta_wf(self.deep_view())
    }

    /// Decode a complex attribute as a metadata block.
    pub fn try_from_complex(c: ScimComplexAttr) -> (r: Result<ScimMeta, ScimError>)
        requires
            c.wf(),
        ensures
            match r {
                Ok(meta) => spec_meta_decode(c.deep_view()) == Ok::<_, ScimError>(
                    meta.deep_view()) && meta.wf(),
                Err(e) => spec_meta_decode(c.deep_view()) == Err::<SpecMeta, _>(e),
            },
    {
        let mut attrs = c.attrs;
        let resource_type = match get_string(&mut attrs, "resourceType") {
            Ok(v) => v,
            Err(e) => {
                return Err(e);
            },
        };
        let created = match get_rfc3339(&mut attrs, "created") {
            Ok(v) => v,
            Err(e) => {
                return Err(e);
            },
        };
        let last_modified = match get_rfc3339(&mut attrs, "lastModified") {
            Ok(v) => v,
            Err(e) => {
                return Err(e);
            },
        };
        let location = match get_url(&mut attrs, "location") {
            Ok(v) => v,
            Err(e) => {
                return Err(e);
            },
        };
        let version = match get_string(&mut attrs, "version") {
            Ok(v) => v,
            Err(e) => {
                return Err(e);
            },
        };
        Ok(ScimMeta { resource_type, created, last_modified, location, version })
    }

    /// Encode this metadata block as a complex attribute.
    pub fn into_complex(self) -> (r: ScimComplexAttr)
        ensures
            r.deep_view() == spec_meta_encode(self.deep_view()),
            r.wf(),
    {
        let mut attrs = AttrMap::<ScimSimpleAttr>::new();
        attrs.insert(String::from_str("resourceType"), ScimSimpleAttr::String(
            self.resource_type));
        attrs.insert(String::from_str("created"), ScimSimpleAttr::String(self.created));
        attrs.insert(String::from_str("lastModified"), ScimSimpleAttr::String(
            self.last_modified));
        attrs.insert(String::from_str("location"), ScimSimpleAttr::String(self.location));
        attrs.insert(String::from_str("version"), ScimSimpleAttr::String(self.version));
        ScimComplexAttr { attrs }
    }
}

/// View of a generic resource record.
#[verifier::ext_equal]
pub struct SpecEntry {
    pub schemas: Seq<Seq<char>>,
    pub id: Seq<char>,
    pub external_id: Option<Seq<char>>,
    pub meta: Option<SpecMeta>,
    pub attrs: Map<Seq<char>, SpecAttr>,
}

/// One generic resource: schema URNs, a canonical UUID, an optional
/// external id, an optional metadata block, and the map of every remaining
/// attribute.
#[derive(Debug, Clone, PartialEq, Eq)]
pub struct ScimEntry {
    pub schemas: Vec<String>,
    pub id: String,
    pub external_id: Option<String>,
    pub meta: Option<ScimMeta>,
    pub attrs: AttrMap<ScimAttr>,
}

impl DeepView for ScimEntry {
    type V = SpecEntry;

    open spec fn deep_view(&self) -> SpecEntry {
        SpecEntry {
            schemas: self.schemas.deep_view(),
            id: self.id@,
            external_id: self.external_id.deep_view(),
            meta: self.meta.deep_view(),
            attrs: self.attrs.deep_view(),
        }
    }
}

/// Every wire value stored in a map of wire values is well-formed.
pub open spec fn wire_map_wf(m: &AttrMap<WireValue>) -> bool {
    forall|i: int| 0 <= i < m.entries@.len() ==> wire_wf(&(#[trigger] m.entries@[i]).1)
}

/// The attribute an attribute-position wire value classifies to;
/// meaningful only where the classification succeeds.
pub open spec fn spec_attr_val(w: SpecWire) -> SpecAttr {
    match spec_attr_from_wire(w) {
        Ok(a) => a,
        Err(_) => SpecAttr::SingleSimple(SpecSimpleAttr::Bool(false)),
    }
}

/// Decode of the `schemas` wire value: an array of strings, kept verbatim.
pub open spec fn spec_schemas_decode(w: SpecWire) -> Result<Seq<Seq<char>>, ScimError> {
    match w {
        SpecWire::Arr(es) => if forall|i: int| 0 <= i < es.len() ==> (#[trigger] es[i]) is Str {
            Ok(es.map_values(|e: SpecWire| e->Str_0))
        } else {
            Err(ScimError::InvalidAttribute)
        },
        _ => Err(ScimError::InvalidAttribute),
    }
}

/// The required `schemas` field of the resource object.
pub open spec fn spec_schemas_field(m: Map<Seq<char>, SpecWire>) -> Result<
    Seq<Seq<char>>,
    ScimError,
> {
    if !m.contains_key("schemas"@) {
        Err(ScimError::MissingRequiredAttribute)
    } else {
        spec_schemas_decode(m["schemas"@])
    }
}

/// The required `id` field: a string holding a UUID, canonicalized.
pub open spec fn spec_id_field(m: Map<Seq<char>, SpecWire>) -> Result<Seq<char>, ScimError> {
    if !m.contains_key("id"@) {
        Err(ScimError::MissingRequiredAttribute)
    } else {
        match m["id"@] {
            SpecWire::Str(s) => match uuid_canon(s) {
                Some(c) => Ok(c),
                None => Err(ScimError::InvalidAttribute),
            },
            _ => Err(ScimError::InvalidAttribute),
        }
    }
}

/// The optional `externalId` field: a string, kept verbatim.
pub open spec fn spec_ext_id_field(m: Map<Seq<char>, SpecWire>) -> Result<
    Option<Seq<char>>,
    ScimError,
> {
    if !m.contains_key("externalId"@) {
        Ok(None)
    } else {
        match m["externalId"@] {
            SpecWire::Str(s) => Ok(Some(s)),
            _ => Err(ScimError::InvalidAttribute),
        }
    }
}

/// Decode of a `meta` wire value: an object of scalars forming the
/// metadata block.
pub open spec fn spec_meta_from_wire(w: SpecWire) -> Result<SpecMeta, ScimError> {
    match w {
        SpecWire::Obj(m) => match spec_complex_from_obj(m) {
            Err(e) => Err(e),
            Ok(cm) => spec_meta_decode(cm),
        },
        _ => Err(ScimError::InvalidAttribute),
    }
}

/// The optional `meta` field of the resource object.
pub open spec fn spec_meta_field(m: Map<Seq<char>, SpecWire>) -> Result<
    Option<SpecMeta>,
    ScimError,
> {
    if !m.contains_key("meta"@) {
        Ok(None)
    } else {
        match spec_meta_from_wire(m["meta"@]) {
            Ok(mt) => Ok(Some(mt)),
            Err(e) => Err(e),
        }
    }
}

/// Decode of the resource envelope, in field order: schemas, id,
/// externalId, meta; the first failure propagates.
pub open spec fn spec_entry_envelope(m0: Map<Seq<char>, SpecWire>) -> Result<
    (Seq<Seq<char>>, Seq<char>, Option<Seq<char>>, Option<SpecMeta>),
    ScimError,
> {
    let r1 = spec_schemas_field(m0);
    let m1 = m0.remove("schemas"@);
    let r2 = spec_id_field(m1);
    let m2 = m1.remove("id"@);
    let r3 = spec_ext_id_field(m2);
    let m3 = m2.remove("externalId"@);
    let r4 = spec_meta_field(m3);
    if r1 is Err {
        Err(r1->Err_0)
    } else if r2 is Err {
        Err(r2->Err_0)
    } else if r3 is Err {
        Err(r3->Err_0)
    } else if r4 is Err {
        Err(r4->Err_0)
    } else {
        Ok((r1->Ok_0, r2->Ok_0, r3->Ok_0, r4->Ok_0))
    }
}

/// What remains of the resource object once the envelope fields are taken
/// out: the resource's attributes, still as wire values.
pub open spec fn spec_entry_rest(m: Map<Seq<char>, SpecWire>) -> Map<Seq<char>, SpecWire> {
    m.remove("schemas"@).remove("id"@).remove("externalId"@).remove("meta"@)
}

/// Every remaining attribute classifies successfully.
pub open spec fn spec_rest_ok(rest: Map<Seq<char>, SpecWire>) -> bool {
    forall|k: Seq<char>| rest.contains_key(k) ==> spec_attr_from_wire(#[trigger] rest[k]) is Ok
}

/// The classified attribute map of the remaining attributes.
pub open spec fn spec_rest_attrs(rest: Map<Seq<char>, SpecWire>) -> Map<Seq<char>, SpecAttr> {
    rest.map_values(|w: SpecWire| spec_attr_val(w))
}

/// Some remaining attribute fails to classify, with the given error.
pub open spec fn spec_rest_err(rest: Map<Seq<char>, SpecWire>, err: ScimError) -> bool {
    exists|k: Seq<char>|
        rest.contains_key(k) && spec_attr_from_wire(#[trigger] rest[k]) == Err::<SpecAttr, _>(err)
}

/// Turn the key/value pairs of a well-formed wire object into a map of
/// wire values.
#[verifier::loop_isolation(false)]
fn wire_obj_to_map(pairs: Vec<(String, WireValue)>) -> (r: AttrMap<WireValue>)
    requires
        pairs_unique(wire_view_pairs(pairs@)),
        crate::wire::wire_wf_pairs(pairs@),
    ensures
        r@ == pairs_map(wire_view_pairs(pairs@)),
        r.wf(),
        wire_map_wf(&r),
{
    let ghost all = pairs@;
    let ghost allv = wire_view_pairs(all);
    proof {
        lemma_wire_view_pairs(all);
        lemma_wire_wf_pairs(all);
    }
    let mut rest = pairs;
    let n = rest.len();
    let mut m = AttrMap::<WireValue>::new();
    let mut i: usize = 0;
    while i < n
        invariant
            i <= n,
            rest@ == all.skip(i as int),
            m.wf(),
            wire_map_wf(&m),
            m@ == pairs_map(allv.take(i as int)),
        decreases n - i,
    {
        proof {
            assert(all.skip(i as int)[0] == all[i as int]);
        }
        let (k, v) = rest.remove(0);
        proof {
            assert(rest@ =~= all.skip(i as int + 1));
            assert(allv.take(i as int + 1).drop_last() =~= allv.take(i as int));
            assert(allv.take(i as int + 1).last() == allv[i as int]);
        }
        m.insert(k, v);
        i += 1;
    }
    proof {
        assert(allv.take(n as int) =~= allv);
    }
    m
}

/// Decode a `schemas` wire value as a list of schema URNs.
#[verifier::loop_isolation(false)]
fn schemas_from_wire(v: WireValue) -> (r: Result<Vec<String>, ScimError>)
    ensures
        match r {
            Ok(ss) => spec_schemas_decode(wire_view(&v)) == Ok::<_, ScimError>(ss.deep_view()),
            Err(e) => spec_schemas_decode(wire_view(&v)) == Err::<Seq<Seq<char>>, _>(e),
        },
{
    match v {
        WireValue::Array(elems) => {
            let ghost all = elems@;
            let ghost allv = wire_view_seq(all);
            proof {
                lemma_wire_view_seq(all);
            }
            let mut rest = elems;
            let n = rest.len();
            let mut out: Vec<String> = Vec::new();
            let mut i: usize = 0;
            while i < n
                invariant
                    i <= n,
                    rest@ == all.skip(i as int),
                    out@.len() == i,
                    forall|j: int| 0 <= j < i ==> (#[trigger] allv[j]) is Str,
                    forall|j: int| 0 <= j < i ==> (#[trigger] out@[j])@ == allv[j]->Str_0,
                decreases n - i,
            {
                proof {
                    assert(all.skip(i as int)[0] == all[i as int]);
                }
                let e = rest.remove(0);
                proof {
                    assert(rest@ =~= all.skip(i as int + 1));
                }
                match e {
                    WireValue::Str(s) => {
                        out.push(s);
                    },
                    _ => {
                        proof {
                            assert(!((#[trigger] allv[i as int]) is Str));
                        }
                        return Err(ScimError::InvalidAttribute);
                    },
                }
                i += 1;
            }
            proof {
                assert(out.deep_view() =~= allv.map_values(|e: SpecWire| e->Str_0));
            }
            Ok(out)
        },
        _ => Err(ScimError::InvalidAttribute),
    }
}

/// Decode a `meta` wire value as a metadata block.
fn meta_from_wire_value(v: WireValue) -> (r: Result<ScimMeta, ScimError>)
    requires
        wire_wf(&v),
    ensures
        match r {
            Ok(mt) => spec_meta_from_wire(wire_view(&v)) == Ok::<_, ScimError>(mt.deep_view())
                && mt.wf(),
            Err(e) => spec_meta_from_wire(wire_view(&v)) == Err::<SpecMeta, _>(e),
        },
{
    match v {
        WireValue::Object(mp) => {
            match ScimComplexAttr::try_from_obj(mp) {
                Ok(c) => ScimMeta::try_from_complex(c),
                Err(e) => Err(e),
            }
        },
        _ => Err(ScimError::InvalidAttribute),
    }
}

impl ScimEntry {
    /// Well-formedness: the id is a canonical UUID, the metadata is
    /// well-formed, attribute names are distinct, every attribute is
    /// well-formed, and no attribute reuses an envelope key.
    pub open spec fn wf(&self) -> bool {
        &&& uuid_canon(self.id@) == Some(self.id@)
        &&& match self.meta {
            Some(mt) => mt.wf(),
            None => true,
        }
        &&& self.attrs.wf()
        &&& entry_attrs_wf(&self.attrs)
        &&& !self.attrs@.contains_key("schemas"@)
        &&& !self.attrs@.contains_key("id"@)
        &&& !self.attrs@.contains_key("externalId"@)
        &&& !self.attrs@.contains_key("meta"@)
    }

    /// Decode a wire payload as a generic resource record: the envelope
    /// fields are validated, and every remaining attribute is classified.
    #[verifier::loop_isolation(false)]
    pub fn try_from_wire(value: WireValue) -> (r: Result<ScimEntry, ScimError>)
        requires
            value.wf(),
        ensures
            match r {
                Ok(en) => {
                    &&& wire_view(&value) is Obj
                    &&& spec_entry_envelope(wire_view(&value)->Obj_0) == Ok::<_, ScimError>((
                        en.schemas.deep_view(),
                        en.id@,
                        en.external_id.deep_view(),
                        en.meta.deep_view(),
                    ))
                    &&& spec_rest_ok(spec_entry_rest(wire_view(&value)->Obj_0))
                    &&& en.attrs@ == spec_rest_attrs(spec_entry_rest(wire_view(&value)->Obj_0))
                    &&& en.wf()
                },
                Err(err) => {
                    ||| !(wire_view(&value) is Obj) && err == ScimError::InvalidAttribute
                    ||| wire_view(&value) is Obj && spec_entry_envelope(
                        wire_view(&value)->Obj_0,
                    ) == Err::<(Seq<Seq<char>>, Seq<char>, Option<Seq<char>>, Option<SpecMeta>), _>(
                        err,
                    )
                    ||| wire_view(&value) is Obj && spec_entry_envelope(
                        wire_view(&value)->Obj_0,
                    ) is Ok && spec_rest_err(spec_entry_rest(wire_view(&value)->Obj_0), err)
                },
            },
    {
        let pairs = match value {
            WireValue::Object(p) => p,
            _ => {
                return Err(ScimError::InvalidAttribute);
            },
        };
        let ghost m0 = pairs_map(wire_view_pairs(pairs@));
        let mut wm = wire_obj_to_map(pairs);
        let schemas = match wm.remove("schemas") {
            None => {
                return Err(ScimError::MissingRequiredAttribute);
            },
            Some(w) => match schemas_from_wire(w) {
                Ok(ss) => ss,
                Err(e) => {
                    return Err(e);
                },
            },
        };
        let ghost m1 = m0.remove("schemas"@);
        let id = match wm.remove("id") {
            None => {
                return Err(ScimError::MissingRequiredAttribute);
            },
            Some(WireValue::Str(s)) => match canon_uuid(s.as_str()) {
                Some(c) => c,
                None => {
                    return Err(ScimError::InvalidAttribute);
                },
            },
            Some(_) => {
                return Err(ScimError::InvalidAttribute);
            },
        };
        let ghost m2 = m1.remove("id"@);
        let external_id = match wm.remove("externalId") {
            None => None,
            Some(WireValue::Str(s)) => Some(s),
            Some(_) => {
                return Err(ScimError::InvalidAttribute);
            },
        };
        let ghost m3 = m2.remove("externalId"@);
        let meta = match wm.remove("meta") {
            None => None,
            Some(w) => match meta_from_wire_value(w) {
                Ok(mt) => Some(mt),
                Err(e) => {
                    return Err(e);
                },
            },
        };
        let ghost rest = spec_entry_rest(m0);
        proof {
            assert(wm@ =~= rest);
        }
        let mut am = AttrMap::<ScimAttr>::new();
        let mut entries = wm.entries;
        let ghost alle = entries@;
        let ghost evs = entry_views(alle);
        proof {
            assert(pairs_map(evs) == rest);
        }
        let n = entries.len();
        let mut i: usize = 0;
        while i < n
            invariant
                i <= n,
                entries@ == alle.skip(i as int),
                am.wf(),
                entry_attrs_wf(&am),
                forall|j: int| 0 <= j < i ==> spec_attr_from_wire((#[trigger] evs[j]).1) is Ok,
                am@ == pairs_map(evs.take(i as int)).map_values(|w: SpecWire| spec_attr_val(w)),
            decreases n - i,
        {
            proof {
                assert(alle.skip(i as int)[0] == alle[i as int]);
            }
            let (k, w) = entries.remove(0);
            proof {
                assert(entries@ =~= alle.skip(i as int + 1));
            }
            match ScimAttr::try_from_wire(w) {
                Ok(a) => {
                    proof {
                        assert(allv_take_step(evs, i as int));
                        lemma_map_values_insert(
                            pairs_map(evs.take(i as int)),
                            evs[i as int].0,
                            evs[i as int].1,
                            |w2: SpecWire| spec_attr_val(w2),
                        );
                    }
                    am.insert(k, a);
                    proof {
                        assert(am@ =~= pairs_map(evs.take(i as int + 1)).map_values(
                            |w2: SpecWire| spec_attr_val(w2)));
                    }
                },
                Err(e) => {
                    proof {
                        lemma_pairs_map_index(evs, i as int);
                        assert(rest.contains_key(evs[i as int].0) && spec_attr_from_wire(
                            rest[evs[i as int].0]) == Err::<SpecAttr, _>(e));
                    }
                    return Err(e);
                },
            }
            i += 1;
        }
        proof {
            assert(evs.take(n as int) =~= evs);
            assert forall|k: Seq<char>| rest.contains_key(k) implies spec_attr_from_wire(
                #[trigger] rest[k]) is Ok by {
                lemma_pairs_map_contains(evs, k);
                let j = choose|j: int| 0 <= j < evs.len() && (#[trigger] evs[j]).0 == k;
                lemma_pairs_map_index(evs, j);
            }
            assert(am@ =~= spec_rest_attrs(rest));
            assert(!rest.contains_key("schemas"@));
            assert(!rest.contains_key("id"@));
            assert(!rest.contains_key("externalId"@));
            assert(!rest.contains_key("meta"@));
        }
        Ok(ScimEntry { schemas, id, external_id, meta, attrs: am })
    }
}

/// The wire value a metadata block serializes to.
pub open spec fn spec_meta_wire(mt: SpecMeta) -> SpecWire {
    spec_complex_to_wire(spec_meta_encode(mt))
}

/// Encode of a generic resource back into a wire object: every attribute
/// is serialized, absent optional envelope fields are omitted entirely,
/// and the envelope fields are written.
pub open spec fn spec_entry_encode(d: SpecEntry) -> Map<Seq<char>, SpecWire> {
    let ma = d.attrs.map_values(|a: SpecAttr| spec_attr_to_wire(a));
    let mm = if d.meta is Some {
        ma.insert("meta"@, spec_meta_wire(d.meta->0))
    } else {
        ma
    };
    let mx = if d.external_id is Some {
        mm.insert("externalId"@, SpecWire::Str(d.external_id->0))
    } else {
        mm
    };
    mx.insert("id"@, SpecWire::Str(d.id)).insert(
        "schemas"@,
        SpecWire::Arr(d.schemas.map_values(|s: Seq<char>| SpecWire::Str(s))),
    )
}

/// Appending a pair to a wire object inserts its views into the object's
/// map.
pub proof fn lemma_wire_pairs_push(s: Seq<(String, WireValue)>, p: (String, WireValue))
    ensures
        wire_view_pairs(s.push(p)) =~= wire_view_pairs(s).push((p.0@, wire_view(&p.1))),
        pairs_map(wire_view_pairs(s.push(p))) == pairs_map(wire_view_pairs(s)).insert(
            p.0@,
            wire_view(&p.1),
        ),
{
    lemma_wire_view_pairs(s.push(p));
    lemma_wire_view_pairs(s);
    assert(wire_view_pairs(s.push(p)) =~= wire_view_pairs(s).push((p.0@, wire_view(&p.1))));
    crate::attrmap::lemma_pairs_map_push(wire_view_pairs(s), (p.0@, wire_view(&p.1)));
}

impl ScimEntry {
    /// Serialize this resource back to a wire object. The attribute pairs
    /// come first and the envelope fields last, so in the object's map the
    /// envelope always wins.
    #[verifier::loop_isolation(false)]
    pub fn into_wire(self) -> (r: WireValue)
        ensures
            wire_view(&r) == SpecWire::Obj(spec_entry_encode(self.deep_view())),
            self.wf() ==> wire_wf(&r),
    {
        let ghost d = self.deep_view();
        let ghost wf_in = self.wf();
        let ScimEntry { schemas, id, external_id, meta, attrs } = self;
        let mut out: Vec<(String, WireValue)> = Vec::new();
        let ghost ae = attrs.entries@;
        let mut entries = attrs.entries;
        let n = entries.len();
        let mut i: usize = 0;
        while i < n
            invariant
                i <= n,
                entries@ == ae.skip(i as int),
                out@.len() == i,
                forall|j: int| 0 <= j < i ==> (#[trigger] out@[j]).0 == ae[j].0,
                forall|j: int| 0 <= j < i ==> wire_view(&(#[trigger] out@[j]).1)
                    == spec_attr_to_wire(ae[j].1.deep_view()),
                forall|j: int| 0 <= j < i ==> ((#[trigger] ae[j]).1.wf() ==> wire_wf(&out@[j].1)),
            decreases n - i,
        {
            proof {
                assert(ae.skip(i as int)[0] == ae[i as int]);
            }
            let (k, a) = entries.remove(0);
            proof {
                assert(entries@ =~= ae.skip(i as int + 1));
            }
            let w = a.into_wire();
            out.push((k, w));
            i += 1;
        }
        proof {
            lemma_wire_view_pairs(out@);
            assert forall|j: int| 0 <= j < n implies #[trigger] wire_view_pairs(out@)[j]
                == ((#[trigger] entry_views(ae)[j]).0, spec_attr_to_wire(entry_views(ae)[j].1)) by {
                assert(out@[j].0 == ae[j].0);
            }
            lemma_pairs_map_map_values(
                entry_views(ae),
                wire_view_pairs(out@),
                |a: SpecAttr| spec_attr_to_wire(a),
            );
            assert(pairs_map(wire_view_pairs(out@)) == d.attrs.map_values(
                |a: SpecAttr| spec_attr_to_wire(a))) by {
                assert(pairs_map(wire_view_pairs(out@)) =~= d.attrs.map_values(
                    |a: SpecAttr| spec_attr_to_wire(a)));
            }
            if wf_in {
                assert forall|x: int, y: int| 0 <= x < y < wire_view_pairs(out@).len() implies (
                    #[trigger] wire_view_pairs(out@)[x]).0 != (
                    #[trigger] wire_view_pairs(out@)[y]).0 by {
                    assert((#[trigger] entry_views(ae)[x]).0 != (#[trigger] entry_views(ae)[y]).0);
                }
                assert forall|j: int| 0 <= j < out@.len() implies wire_wf(
                    &(#[trigger] out@[j]).1) by {
                    assert((#[trigger] ae[j]).1.wf());
                }
            }
        }
        proof {
            reveal_strlit("schemas");
            reveal_strlit("id");
            reveal_strlit("externalId");
            reveal_strlit("meta");
        }
        let ghost ma = pairs_map(wire_view_pairs(out@));
        proof {
            assert(ma.dom() =~= d.attrs.dom());
        }
        if let Some(mt) = meta {
            let c = mt.into_complex();
            let w = c.into_wire();
            let key = String::from_str("meta");
            proof {
                lemma_wire_pairs_push(out@, (key, w));
                if wf_in {
                    assert(pairs_map(wire_view_pairs(out@)) == ma);
                    assert(!d.attrs.contains_key("meta"@));
                    assert(!ma.contains_key("meta"@));
                    crate::attrmap::lemma_pairs_push_unique(
                        wire_view_pairs(out@),
                        (key@, wire_view(&w)),
                    );
                }
            }
            out.push((key, w));
        }
        let ghost mm = pairs_map(wire_view_pairs(out@));
        proof {
            assert(mm == (if d.meta is Some {
                ma.insert("meta"@, spec_meta_wire(d.meta->0))
            } else {
                ma
            }));
        }
        if let Some(x) = external_id {
            let key = String::from_str("externalId");
            let w = WireValue::Str(x);
            proof {
                lemma_wire_pairs_push(out@, (key, w));
                if wf_in {
                    reveal_strlit("externalId");
                    reveal_strlit("meta");
                    assert(pairs_map(wire_view_pairs(out@)) == mm);
                    assert("externalId"@.len() == 10 && "meta"@.len() == 4);
                    assert("externalId"@ != "meta"@);
                    assert(!ma.contains_key("externalId"@));
                    assert(!mm.contains_key("externalId"@));
                    crate::attrmap::lemma_pairs_push_unique(
                        wire_view_pairs(out@),
                        (key@, wire_view(&w)),
                    );
                }
            }
            out.push((key, w));
        }
        let ghost mx = pairs_map(wire_view_pairs(out@));
        proof {
            assert(mx == (if d.external_id is Some {
                mm.insert("externalId"@, SpecWire::Str(d.external_id->0))
            } else {
                mm
            }));
        }
        let key_id = String::from_str("id");
        let wid = WireValue::Str(id);
        proof {
            lemma_wire_pairs_push(out@, (key_id, wid));
            if wf_in {
                reveal_strlit("id");
                reveal_strlit("meta");
                reveal_strlit("externalId");
                assert(pairs_map(wire_view_pairs(out@)) == mx);
                assert("id"@.len() == 2 && "meta"@.len() == 4 && "externalId"@.len() == 10);
                assert("id"@ != "meta"@);
                assert("id"@ != "externalId"@);
                assert(!ma.contains_key("id"@));
                assert(!mx.contains_key("id"@));
                crate::attrmap::lemma_pairs_push_unique(
                    wire_view_pairs(out@),
                    (key_id@, wire_view(&wid)),
                );
            }
        }
        out.push((key_id, wid));
        let ghost mi = pairs_map(wire_view_pairs(out@));
        let mut sv: Vec<WireValue> = Vec::new();
        let ghost ss = schemas.deep_view();
        let ghost sall = schemas@;
        let mut srest = schemas;
        let sn = srest.len();
        let mut si: usize = 0;
        while si < sn
            invariant
                si <= sn,
                srest@ == sall.skip(si as int),
                sv@.len() == si,
                forall|j: int| 0 <= j < si ==> (#[trigger] sv@[j]) == WireValue::Str(sall[j]),
            decreases sn - si,
        {
            proof {
                assert(sall.skip(si as int)[0] == sall[si as int]);
            }
            let s = srest.remove(0);
            proof {
                assert(srest@ =~= sall.skip(si as int + 1));
            }
            sv.push(WireValue::Str(s));
            si += 1;
        }
        let wschemas = WireValue::Array(sv);
        proof {
            lemma_wire_view_seq(sv@);
            assert(wire_view(&wschemas) == SpecWire::Arr(ss.map_values(
                |s: Seq<char>| SpecWire::Str(s)))) by {
                assert(wire_view_seq(sv@) =~= ss.map_values(|s: Seq<char>| SpecWire::Str(s)));
            }
            lemma_wire_wf_seq(sv@);
        }
        let key_schemas = String::from_str("schemas");
        proof {
            lemma_wire_pairs_push(out@, (key_schemas, wschemas));
            if wf_in {
                reveal_strlit("schemas");
                reveal_strlit("id");
                reveal_strlit("meta");
                reveal_strlit("externalId");
                assert(pairs_map(wire_view_pairs(out@)) == mi);
                assert("schemas"@.len() == 7 && "meta"@.len() == 4);
                assert("externalId"@.len() == 10 && "id"@.len() == 2);
                assert("schemas"@ != "meta"@);
                assert("schemas"@ != "externalId"@);
                assert("schemas"@ != "id"@);
                assert(!ma.contains_key("schemas"@));
                assert(!mi.contains_key("schemas"@));
                crate::attrmap::lemma_pairs_push_unique(
                    wire_view_pairs(out@),
                    (key_schemas@, wire_view(&wschemas)),
                );
            }
        }
        out.push((key_schemas, wschemas));
        proof {
            assert(pairs_map(wire_view_pairs(out@)) =~= spec_entry_encode(d));
            if wf_in {
                lemma_wire_wf_pairs(out@);
            }
        }
        WireValue::Object(out)
    }
}

/// Taking one more pair of an association list extends its prefix map by
/// that pair.
pub open spec fn allv_take_step<T>(s: Seq<(Seq<char>, T)>, i: int) -> bool {
    &&& 0 <= i < s.len() ==> s.take(i + 1).drop_last() =~= s.take(i)
    &&& 0 <= i < s.len() ==> s.take(i + 1).last() == s[i]
}

/// A metadata map is canonical: it holds exactly the metadata keys, and
/// its timestamp and location texts are their own canonical forms.
pub open spec fn spec_meta_map_canonical(m: Map<Seq<char>, SpecSimpleAttr>) -> bool {
    &&& m.dom() <= set![
        "resourceType"@,
        "created"@,
        "lastModified"@,
        "location"@,
        "version"@,
    ]
    &&& (m.contains_key("created"@) ==> (match m["created"@] {
        SpecSimpleAttr::String(s) => rfc3339_canon(s) == Some(s),
        _ => true,
    }))
    &&& (m.contains_key("lastModified"@) ==> (match m["lastModified"@] {
        SpecSimpleAttr::String(s) => rfc3339_canon(s) == Some(s),
        _ => true,
    }))
    &&& (m.contains_key("location"@) ==> (match m["location"@] {
        SpecSimpleAttr::String(s) => url_canon(s) == Some(s),
        _ => true,
    }))
}

/// Round-trip law at the metadata level: a canonical metadata map that
/// decodes, encodes back to exactly itself.
pub proof fn lemma_meta_round_trip(m: Map<Seq<char>, SpecSimpleAttr>, d: SpecMeta)
    requires
        spec_meta_decode(m) == Ok::<_, ScimError>(d),
        spec_meta_map_canonical(m),
    ensures
        spec_meta_encode(d) =~= m,
{
    reveal_strlit("resourceType");
    reveal_strlit("created");
    reveal_strlit("lastModified");
    reveal_strlit("location");
    reveal_strlit("version");
    assert("resourceType"@.len() == 12 && "created"@.len() == 7 && "lastModified"@.len() == 12);
    assert("location"@.len() == 8 && "version"@.len() == 7);
    assert("resourceType"@[0] == 'r' && "lastModified"@[0] == 'l');
    assert("created"@[0] == 'c' && "version"@[0] == 'v');
    assert(m.contains_key("resourceType"@));
    assert(m.contains_key("created"@));
    assert(m.contains_key("lastModified"@));
    assert(m.contains_key("location"@));
    assert(m.contains_key("version"@));
    assert(spec_meta_encode(d) =~= m);
}

/// A resource payload's wire object is canonical: its id text is its own
/// canonical form, and its metadata object is canonical.
pub open spec fn spec_entry_wire_canonical(m: Map<Seq<char>, SpecWire>) -> bool {
    &&& (m.contains_key("id"@) ==> (match m["id"@] {
        SpecWire::Str(s) => uuid_canon(s) == Some(s),
        _ => true,
    }))
    &&& (m.contains_key("meta"@) ==> (match m["meta"@] {
        SpecWire::Obj(mm) => spec_obj_scalars(mm) && spec_meta_map_canonical(
            mm.map_values(|w: SpecWire| crate::attr::spec_simple_val(w)),
        ),
        _ => true,
    }))
}

/// Round-trip law at the generic payload level: a canonical payload object
/// that decodes as an entry, encodes back to exactly itself; absent
/// optional envelope fields stay omitted and every attribute round-trips
/// through its classification.
pub proof fn lemma_entry_round_trip(m: Map<Seq<char>, SpecWire>, en: SpecEntry)
    requires
        spec_entry_envelope(m) == Ok::<_, ScimError>((
            en.schemas,
            en.id,
            en.external_id,
            en.meta,
        )),
        spec_rest_ok(spec_entry_rest(m)),
        en.attrs == spec_rest_attrs(spec_entry_rest(m)),
        spec_entry_wire_canonical(m),
    ensures
        spec_entry_encode(en) =~~= m,
{
    reveal_strlit("schemas");
    reveal_strlit("id");
    reveal_strlit("externalId");
    reveal_strlit("meta");
    assert("schemas"@.len() == 7 && "id"@.len() == 2);
    assert("externalId"@.len() == 10 && "meta"@.len() == 4);
    let rest = spec_entry_rest(m);
    assert(m.contains_key("schemas"@));
    assert(m.contains_key("id"@));
    let es = m["schemas"@]->Arr_0;
    assert(m["schemas"@] is Arr);
    assert(en.schemas == es.map_values(|e: SpecWire| e->Str_0));
    assert forall|i: int| 0 <= i < es.len() implies en.schemas.map_values(
        |s: Seq<char>| SpecWire::Str(s))[i] == es[i] by {
        assert((#[trigger] es[i]) is Str);
    }
    assert(en.schemas.map_values(|s: Seq<char>| SpecWire::Str(s)) =~~= es);
    assert forall|k: Seq<char>| rest.contains_key(k) implies spec_attr_to_wire(
        crate::entry::spec_attr_val(#[trigger] rest[k])) == rest[k] by {
        crate::attr::lemma_attr_round_trip(rest[k], spec_attr_val(rest[k]));
    }
    let ma = en.attrs.map_values(|a: SpecAttr| spec_attr_to_wire(a));
    assert(ma =~~= rest);
    if m.contains_key("meta"@) {
        let mm = m["meta"@]->Obj_0;
        assert(m["meta"@] is Obj);
        let cm = mm.map_values(|w: SpecWire| crate::attr::spec_simple_val(w));
        assert(spec_complex_from_obj(mm) == Ok::<_, ScimError>(cm));
        assert(en.meta is Some);
        assert(spec_meta_decode(cm) == Ok::<_, ScimError>(en.meta->0));
        lemma_meta_round_trip(cm, en.meta->0);
        crate::attr::lemma_complex_round_trip(mm, cm);
        assert(spec_meta_wire(en.meta->0) == spec_complex_to_wire(spec_meta_encode(en.meta->0)));
        assert(spec_complex_to_wire(spec_meta_encode(en.meta->0)) =~~= spec_complex_to_wire(cm));
        assert(spec_meta_wire(en.meta->0) =~~= SpecWire::Obj(mm));
    } else {
        assert(en.meta is None);
    }
    if m.contains_key("externalId"@) {
        assert(m["externalId"@] is Str);
        assert(en.external_id == Some(m["externalId"@]->Str_0));
    } else {
        assert(en.external_id is None);
    }
    assert(m["id"@] is Str);
    assert(en.id == m["id"@]->Str_0);
    assert(spec_entry_encode(en) =~~= m);
}

} // verus!
