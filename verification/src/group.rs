//! The Group resource: a display name and a list of member references,
//! with its schema-checked conversion from and to the generic entry.

use vstd::prelude::*;

use crate::attr::{ScimAttr, ScimComplexAttr, SpecAttr, SpecSimpleAttr};
use crate::attrmap::AttrMap;
use crate::canon::{url_canon, uuid_canon};
use crate::entry::{ScimEntry, ScimMeta, SpecEntry, SpecMeta};
use crate::error::ScimError;
use crate::extract::{
    entry_attrs_wf, get_option_multi_complex, get_single_string, get_string, get_url, get_uuid,
    take_opt_multi, take_req_sstring, take_req_string, take_req_url, take_req_uuid,
};
use crate::strutil::str_eq;

verus! {

broadcast use {vstd::map::group_map_axioms, vstd::set::group_set_axioms, vstd::seq::group_seq_axioms};

/// The schema URN owned by the Group resource type.
pub open spec fn spec_group_urn() -> Seq<char> {
    "urn:ietf:params:scim:schemas:core:2.0:Group"@
}

/// A schema list names a URN.
pub open spec fn spec_has_schema(ss: Seq<Seq<char>>, urn: Seq<char>) -> bool {
    exists|i: int| 0 <= i < ss.len() && (#[trigger] ss[i]) == urn
}

/// Whether a schema list names a URN.
#[verifier::loop_isolation(false)]
pub fn has_schema(ss: &Vec<String>, urn: &str) -> (r: bool)
    ensures
        r == spec_has_schema(ss.deep_view(), urn@),
{
    let n = ss.len();
    let mut i: usize = 0;
    while i < n
        invariant
            i <= n,
            forall|j: int| 0 <= j < i ==> (#[trigger] ss.deep_view()[j]) != urn@,
        decreases n - i,
    {
        if str_eq(ss[i].as_str(), urn) {
            proof {
                assert((#[trigger] ss.deep_view()[i as int]) == urn@);
            }
            return true;
        }
        i += 1;
    }
    false
}

/// View of one group-membership reference.
#[verifier::ext_equal]
pub struct SpecMember {
    pub display: Seq<char>,
    pub value: Seq<char>,
    pub ref_: Seq<char>,
}

/// One group-membership reference: a display name, a member id (canonical
/// UUID text) and a hyperlink (canonical URI text).
#[derive(Debug, Clone, PartialEq, Eq)]
pub struct Member {
    pub display: String,
    pub value: String,
    pub ref_: String,
}

impl DeepView for Member {
    type V = SpecMember;

    open spec fn deep_view(&self) -> SpecMember {
        SpecMember { display: self.display@, value: self.value@, ref_: self.ref_@ }
    }
}

/// Decode of a complex attribute as a member reference: display, value and
/// `$ref` are all required; the first failure propagates.
pub open spec fn spec_member_decode(m0: Map<Seq<char>, SpecSimpleAttr>) -> Result<
    SpecMember,
    ScimError,
> {
    let r1 = take_req_string(m0, "display"@);
    let m1 = m0.remove("display"@);
    let r2 = take_req_uuid(m1, "value"@);
    let m2 = m1.remove("value"@);
    let r3 = take_req_url(m2, "$ref"@);
    if r1 is Err {
        Err(r1->Err_0)
    } else if r2 is Err {
        Err(r2->Err_0)
    } else if r3 is Err {
        Err(r3->Err_0)
    } else {
        Ok(SpecMember { display: r1->Ok_0, value: r2->Ok_0, ref_: r3->Ok_0 })
    }
}

/// Encode of a member reference back to a complex attribute map.
pub open spec fn spec_member_encode(d: SpecMember) -> Map<Seq<char>, SpecSimpleAttr> {
    Map::empty()
        .insert("display"@, SpecSimpleAttr::String(d.display))
        .insert("$ref"@, SpecSimpleAttr::String(d.ref_))
        .insert("value"@, SpecSimpleAttr::String(d.value))
}

impl Member {
    /// Well-formedness: the member id and hyperlink are canonical.
    pub open spec fn wf(&self) -> bool {
        &&& uuid_canon(self.value@) == Some(self.value@)
        &&& url_canon(self.ref_@) == Some(self.ref_@)
    }

    /// Decode a complex attribute as a member reference.
    pub fn try_from_complex(c: ScimComplexAttr) -> (r: Result<Member, ScimError>)
        requires
            c.wf(),
        ensures
            match r {
                Ok(mem) => spec_member_decode(c.deep_view()) == Ok::<_, ScimError>(
                    mem.deep_view()) && mem.wf(),
                Err(e) => spec_member_decode(c.deep_view()) == Err::<SpecMember, _>(e),
            },
    {
        let mut attrs = c.attrs;
        let display = match get_string(&mut attrs, "display") {
            Ok(v) => v,
            Err(e) => {
                return Err(e);
            },
        };
        let value = match get_uuid(&mut attrs, "value") {
            Ok(v) => v,
            Err(e) => {
                return Err(e);
            },
        };
        let ref_ = match get_url(&mut attrs, "$ref") {
            Ok(v) => v,
            Err(e) => {
                return Err(e);
            },
        };
        Ok(Member { display, value, ref_ })
    }

    /// Encode this member reference as a complex attribute.
    pub fn into_complex(self) -> (r: ScimComplexAttr)
        ensures
            r.deep_view() == spec_member_encode(self.deep_view()),
            r.wf(),
    {
        let mut attrs = AttrMap::new();
        attrs.insert(String::from_str("display"), crate::attr::ScimSimpleAttr::String(
            self.display));
        attrs.insert(String::from_str("$ref"), crate::attr::ScimSimpleAttr::String(self.ref_));
        attrs.insert(String::from_str("value"), crate::attr::ScimSimpleAttr::String(self.value));
        ScimComplexAttr { attrs }
    }
}

/// Element-wise decode of the members list; the first element failure
/// propagates and no partial result is kept.
pub open spec fn spec_members_decode(ms: Seq<Map<Seq<char>, SpecSimpleAttr>>) -> Result<
    Seq<SpecMember>,
    ScimError,
>
    decreases ms.len(),
{
    if ms.len() == 0 {
        Ok(Seq::empty())
    } else {
        match spec_members_decode(ms.drop_last()) {
            Err(e) => Err(e),
            Ok(t) => match spec_member_decode(ms.last()) {
                Err(e) => Err(e),
                Ok(d) => Ok(t.push(d)),
            },
        }
    }
}

/// A members list whose elements up to an index decode and whose element
/// at the index fails, fails with that element's error.
pub proof fn lemma_members_first_err(ms: Seq<Map<Seq<char>, SpecSimpleAttr>>, i: int, e: ScimError)
    requires
        0 <= i < ms.len(),
        spec_members_decode(ms.take(i)) is Ok,
        spec_member_decode(ms[i]) == Err::<SpecMember, _>(e),
    ensures
        spec_members_decode(ms) == Err::<Seq<SpecMember>, _>(e),
    decreases ms.len(),
{
    if i == ms.len() - 1 {
        assert(ms.take(i) =~= ms.drop_last());
    } else {
        assert(ms.drop_last().take(i) =~= ms.take(i));
        assert(ms.drop_last()[i] == ms[i]);
        lemma_members_first_err(ms.drop_last(), i, e);
    }
}

/// View of a Group resource.
#[verifier::ext_equal]
pub struct SpecGroup {
    pub id: Seq<char>,
    pub external_id: Option<Seq<char>>,
    pub meta: Option<SpecMeta>,
    pub display_name: Seq<char>,
    pub members: Seq<SpecMember>,
}

/// One Group resource: envelope fields, a required display name, and the
/// list of member references.
#[derive(Debug, Clone, PartialEq, Eq)]
pub struct Group {
    pub id: String,
    pub external_id: Option<String>,
    pub meta: Option<ScimMeta>,
    pub display_name: String,
    pub members: Vec<Member>,
}

impl DeepView for Group {
    type V = SpecGroup;

    open spec fn deep_view(&self) -> SpecGroup {
        SpecGroup {
            id: self.id@,
            external_id: self.external_id.deep_view(),
            meta: self.meta.deep_view(),
            display_name: self.display_name@,
            members: self.members.deep_view(),
        }
    }
}

/// Decode of a generic entry as a Group: the Group URN must be named by
/// the schema list, the display name is required, the members list is
/// optional, and the first failure propagates.
pub open spec fn spec_group_decode(e: SpecEntry) -> Result<SpecGroup, ScimError> {
    if !spec_has_schema(e.schemas, spec_group_urn()) {
        Err(ScimError::EntryMissingSchema)
    } else {
        let r1 = take_req_sstring(e.attrs, "displayName"@);
        let a1 = e.attrs.remove("displayName"@);
        let r2 = take_opt_multi(a1, "members"@);
        if r1 is Err {
            Err(r1->Err_0)
        } else if r2 is Err {
            Err(r2->Err_0)
        } else if spec_members_decode(r2->Ok_0) is Err {
            Err(spec_members_decode(r2->Ok_0)->Err_0)
        } else {
            Ok(SpecGroup {
                id: e.id,
                external_id: e.external_id,
                meta: e.meta,
                display_name: r1->Ok_0,
                members: spec_members_decode(r2->Ok_0)->Ok_0,
            })
        }
    }
}

/// Encode of a Group back to a generic entry: the schema list becomes
/// exactly the Group URN, and an empty members list is omitted entirely.
pub open spec fn spec_group_encode(d: SpecGroup) -> SpecEntry {
    let a0 = Map::empty().insert(
        "displayName"@,
        SpecAttr::SingleSimple(SpecSimpleAttr::String(d.display_name)),
    );
    let a1 = if d.members.len() > 0 {
        a0.insert(
            "members"@,
            SpecAttr::MultiComplex(
                d.members.map_values(|m: SpecMember| spec_member_encode(m)),
            ),
        )
    } else {
        a0
    };
    SpecEntry {
        schemas: seq![spec_group_urn()],
        id: d.id,
        external_id: d.external_id,
        meta: d.meta,
        attrs: a1,
    }
}

impl Group {
    /// Well-formedness: the id is a canonical UUID, the metadata is
    /// well-formed, and every member is well-formed.
    pub open spec fn wf(&self) -> bool {
        &&& uuid_canon(self.id@) == Some(self.id@)
        &&& match self.meta {
            Some(mt) => mt.wf(),
            None => true,
        }
        &&& forall|i: int| 0 <= i < self.members@.len() ==> (#[trigger] self.members@[i]).wf()
    }

    /// Decode a generic entry as a Group resource.
    #[verifier::loop_isolation(false)]
    pub fn try_from_entry(value: ScimEntry) -> (r: Result<Group, ScimError>)
        requires
            value.wf(),
        ensures
            match r {
                Ok(g) => spec_group_decode(value.deep_view()) == Ok::<_, ScimError>(
                    g.deep_view()) && g.wf(),
                Err(e) => spec_group_decode(value.deep_view()) == Err::<SpecGroup, _>(e),
            },
    {
        let ghost d = value.deep_view();
        if !has_schema(&value.schemas, "urn:ietf:params:scim:schemas:core:2.0:Group") {
            return Err(ScimError::EntryMissingSchema);
        }
        let ScimEntry { schemas, id, external_id, meta, attrs } = value;
        let mut attrs = attrs;
        let display_name = match get_single_string(&mut attrs, "displayName") {
            Ok(v) => v,
            Err(e) => {
                return Err(e);
            },
        };
        let mcs = match get_option_multi_complex(&mut attrs, "members") {
            Ok(v) => v,
            Err(e) => {
                return Err(e);
            },
        };
        let ghost ms = mcs.deep_view();
        let mut rest = mcs;
        let ghost all = rest@;
        let n = rest.len();
        let mut members: Vec<Member> = Vec::new();
        let mut i: usize = 0;
        proof {
            assert(members.deep_view() =~= Seq::<SpecMember>::empty());
            assert(ms.take(0) =~= Seq::<Map<Seq<char>, SpecSimpleAttr>>::empty());
        }
        while i < n
            invariant
                i <= n,
                rest@ == all.skip(i as int),
                forall|j: int| 0 <= j < n ==> (#[trigger] all[j]).wf(),
                members@.len() == i,
                spec_members_decode(ms.take(i as int)) == Ok::<_, ScimError>(
                    members.deep_view()),
                forall|j: int| 0 <= j < i ==> (#[trigger] members@[j]).wf(),
            decreases n - i,
        {
            proof {
                assert(all.skip(i as int)[0] == all[i as int]);
            }
            let c = rest.remove(0);
            proof {
                assert(rest@ =~= all.skip(i as int + 1));
            }
            match Member::try_from_complex(c) {
                Ok(mem) => {
                    proof {
                        assert(ms.take(i as int + 1).drop_last() =~= ms.take(i as int));
                        assert(ms.take(i as int + 1).last() == ms[i as int]);
                    }
                    members.push(mem);
                    proof {
                        assert(members.deep_view() =~= spec_members_decode(ms.take(
                            i as int + 1))->Ok_0);
                    }
                },
                Err(e) => {
                    proof {
                        lemma_members_first_err(ms, i as int, e);
                    }
                    return Err(e);
                },
            }
            i += 1;
        }
        proof {
            assert(ms.take(n as int) =~= ms);
        }
        Ok(Group { id, external_id, meta, display_name, members })
    }

    /// Encode this Group back to a generic entry.
    #[verifier::loop_isolation(false)]
    pub fn into_entry(self) -> (r: ScimEntry)
        ensures
            r.deep_view() == spec_group_encode(self.deep_view()),
            self.wf() ==> r.wf(),
    {
        let ghost d = self.deep_view();
        let ghost wf_in = self.wf();
        let Group { id, external_id, meta, display_name, members } = self;
        let mut attrs = AttrMap::<ScimAttr>::new();
        attrs.insert(
            String::from_str("displayName"),
            ScimAttr::SingleSimple(crate::attr::ScimSimpleAttr::String(display_name)),
        );
        if members.len() > 0 {
            let ghost all = members@;
            let mut rest = members;
            let n = rest.len();
            let mut out: Vec<ScimComplexAttr> = Vec::new();
            let mut i: usize = 0;
            while i < n
                invariant
                    i <= n,
                    rest@ == all.skip(i as int),
                    out@.len() == i,
                    forall|j: int| 0 <= j < i ==> (#[trigger] out@[j]).deep_view()
                        == spec_member_encode(all[j].deep_view()),
                    forall|j: int| 0 <= j < i ==> (#[trigger] out@[j]).wf(),
                decreases n - i,
            {
                proof {
                    assert(all.skip(i as int)[0] == all[i as int]);
                }
                let mem = rest.remove(0);
                proof {
                    assert(rest@ =~= all.skip(i as int + 1));
                }
                let c = mem.into_complex();
                out.push(c);
                i += 1;
            }
            proof {
                assert(out.deep_view() =~= d.members.map_values(
                    |m: SpecMember| spec_member_encode(m)));
            }
            let ma = ScimAttr::MultiComplex(out);
            attrs.insert(String::from_str("members"), ma);
        }
        let schemas = vec![String::from_str("urn:ietf:params:scim:schemas:core:2.0:Group")];
        proof {
            assert(schemas.deep_view() =~= seq![spec_group_urn()]);
        }
        let entry = ScimEntry { schemas, id, external_id, meta, attrs };
        proof {
            assert(entry.deep_view() =~~= spec_group_encode(d));
            if wf_in {
                reveal_strlit("displayName");
                reveal_strlit("members");
                reveal_strlit("schemas");
                reveal_strlit("id");
                reveal_strlit("externalId");
                reveal_strlit("meta");
                assert("displayName"@.len() == 11 && "members"@.len() == 7);
                assert("schemas"@.len() == 7 && "id"@.len() == 2);
                assert("externalId"@.len() == 10 && "meta"@.len() == 4);
                assert("members"@ != "schemas"@) by {
                    assert("members"@[0] == 'm' && "schemas"@[0] == 's');
                }
                assert(entry.wf());
            }
        }
        entry
    }
}

/// Schema enforcement: decoding an entry whose schema list omits the
/// Group URN always fails with `EntryMissingSchema`, regardless of
/// otherwise-valid attributes.
pub proof fn lemma_group_schema_enforced(e: SpecEntry)
    requires
        !spec_has_schema(e.schemas, spec_group_urn()),
    ensures
        spec_group_decode(e) == Err::<SpecGroup, _>(ScimError::EntryMissingSchema),
{
}

/// Required-field enforcement: a Group entry without a display name fails
/// with `MissingRequiredAttribute`.
pub proof fn lemma_group_required_display_name(e: SpecEntry)
    requires
        spec_has_schema(e.schemas, spec_group_urn()),
        !e.attrs.contains_key("displayName"@),
    ensures
        spec_group_decode(e) == Err::<SpecGroup, _>(ScimError::MissingRequiredAttribute),
{
}

/// Optional-field defaulting: a Group entry without a members attribute
/// decodes (when it decodes at all) to the empty members list.
pub proof fn lemma_group_optional_members(e: SpecEntry)
    requires
        spec_group_decode(e) is Ok,
        !e.attrs.contains_key("members"@),
    ensures
        spec_group_decode(e)->Ok_0.members == Seq::<SpecMember>::empty(),
{
}

/// A member's complex attribute map is canonical: it holds exactly the
/// member keys, and its id and hyperlink texts are their own canonical
/// forms.
pub open spec fn spec_member_canonical(m: Map<Seq<char>, SpecSimpleAttr>) -> bool {
    &&& m.dom() <= set!["display"@, "value"@, "$ref"@]
    &&& (m.contains_key("value"@) ==> (match m["value"@] {
        SpecSimpleAttr::String(s) => uuid_canon(s) == Some(s),
        _ => true,
    }))
    &&& (m.contains_key("$ref"@) ==> (match m["$ref"@] {
        SpecSimpleAttr::String(s) => url_canon(s) == Some(s),
        _ => true,
    }))
}

/// Round-trip law at the member level: a canonical member map that
/// decodes, encodes back to exactly itself.
pub proof fn lemma_member_round_trip(m: Map<Seq<char>, SpecSimpleAttr>, d: SpecMember)
    requires
        spec_member_decode(m) == Ok::<_, ScimError>(d),
        spec_member_canonical(m),
    ensures
        spec_member_encode(d) =~= m,
{
    reveal_strlit("display");
    reveal_strlit("value");
    reveal_strlit("$ref");
    assert("display"@.len() == 7 && "value"@.len() == 5 && "$ref"@.len() == 4);
    assert(m.contains_key("display"@));
    assert(m.contains_key("value"@));
    assert(m.contains_key("$ref"@));
    assert(spec_member_encode(d) =~= m);
}

/// Round-trip law for the members list, element by element.
pub proof fn lemma_members_round_trip(ms: Seq<Map<Seq<char>, SpecSimpleAttr>>, t: Seq<SpecMember>)
    requires
        spec_members_decode(ms) == Ok::<_, ScimError>(t),
        forall|i: int| 0 <= i < ms.len() ==> spec_member_canonical(#[trigger] ms[i]),
    ensures
        t.map_values(|d: SpecMember| spec_member_encode(d)) =~~= ms,
    decreases ms.len(),
{
    if ms.len() > 0 {
        let pre = spec_members_decode(ms.drop_last())->Ok_0;
        let ld = spec_member_decode(ms.last())->Ok_0;
        assert(spec_members_decode(ms.drop_last()) is Ok);
        assert(t == pre.push(ld));
        assert forall|i: int| 0 <= i < ms.drop_last().len() implies spec_member_canonical(
            #[trigger] ms.drop_last()[i]) by {
            assert(spec_member_canonical(ms[i]));
        }
        lemma_members_round_trip(ms.drop_last(), pre);
        assert(spec_member_canonical(ms[ms.len() - 1]));
        lemma_member_round_trip(ms.last(), ld);
        assert(t.len() == ms.len());
        assert forall|j: int| 0 <= j < ms.len() implies t.map_values(
            |d: SpecMember| spec_member_encode(d))[j] =~~= ms[j] by {
            if j < ms.len() - 1 {
                assert(t[j] == pre[j]);
                assert(spec_member_encode(pre[j]) == pre.map_values(
                    |d: SpecMember| spec_member_encode(d))[j]);
                assert(ms.drop_last()[j] == ms[j]);
            } else {
                assert(t[j] == ld);
            }
        }
        assert(t.map_values(|d: SpecMember| spec_member_encode(d)) =~~= ms);
    } else {
        assert(t.map_values(|d: SpecMember| spec_member_encode(d)) =~~= ms);
    }
}

/// A Group entry is canonical: its schema list is exactly the Group URN,
/// its attributes are only those the Group schema recognizes, and a
/// present members attribute is a non-empty list of canonical members.
pub open spec fn spec_group_entry_canonical(e: SpecEntry) -> bool {
    &&& e.schemas == seq![spec_group_urn()]
    &&& e.attrs.dom() <= set!["displayName"@, "members"@]
    &&& (e.attrs.contains_key("members"@) ==> (match e.attrs["members"@] {
        SpecAttr::MultiComplex(ms) => ms.len() > 0 && (forall|i: int|
            0 <= i < ms.len() ==> spec_member_canonical(#[trigger] ms[i])),
        _ => true,
    }))
}

/// Round-trip law for Group: a canonical Group payload that decodes,
/// encodes back to exactly the entry it came from; the schema list is
/// canonicalized to the single owning URN, and absent optional attributes
/// stay omitted.
pub proof fn lemma_group_round_trip(e: SpecEntry, d: SpecGroup)
    requires
        spec_group_decode(e) == Ok::<_, ScimError>(d),
        spec_group_entry_canonical(e),
    ensures
        spec_group_encode(d) =~~= e,
{
    reveal_strlit("displayName");
    reveal_strlit("members");
    assert("displayName"@.len() == 11 && "members"@.len() == 7);
    assert(e.attrs.contains_key("displayName"@));
    if e.attrs.contains_key("members"@) {
        let ms = e.attrs["members"@]->MultiComplex_0;
        assert(spec_members_decode(ms) == Ok::<_, ScimError>(d.members));
        lemma_members_round_trip(ms, d.members);
        assert(d.members.map_values(|x: SpecMember| spec_member_encode(x)) =~~= ms);
        assert(d.members.len() == ms.len());
        assert(spec_group_encode(d).attrs =~~= e.attrs);
    } else {
        assert(d.members == Seq::<SpecMember>::empty());
        assert(spec_group_encode(d).attrs =~~= e.attrs);
    }
    assert(spec_group_encode(d) =~~= e);
}

} // verus!
