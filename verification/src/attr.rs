//! The attribute type model and its classification algorithm: one wire
//! attribute's full shape as {single, multi} x {simple, complex}, the
//! conversion of a raw wire value into the correctly-shaped attribute, and
//! the exact inverse of that conversion.

use vstd::prelude::*;

use crate::attrmap::{entry_views, lemma_map_values_insert, lemma_pairs_map_contains, lemma_pairs_map_index, AttrMap};
use crate::error::ScimError;
use crate::wire::{
    lemma_wire_view_pairs, lemma_wire_view_seq, lemma_wire_wf_pairs, lemma_wire_wf_seq,
    pairs_map, pairs_unique, wire_view,
    wire_view_pairs, wire_view_seq, wire_wf, wire_wf_pairs, wire_wf_seq, SpecWire, WireValue,
};

verus! {

broadcast use {vstd::map::group_map_axioms, vstd::set::group_set_axioms, vstd::seq::group_seq_axioms};

/// View of one scalar wire value: a string, a boolean, or a number carried
/// as its wire text.
#[verifier::ext_equal]
pub enum SpecSimpleAttr {
    String(Seq<char>),
    Bool(bool),
    Number(Seq<char>),
}

/// View of one attribute's full shape.
#[verifier::ext_equal]
pub enum SpecAttr {
    SingleSimple(SpecSimpleAttr),
    SingleComplex(Map<Seq<char>, SpecSimpleAttr>),
    MultiSimple(Seq<SpecSimpleAttr>),
    MultiComplex(Seq<Map<Seq<char>, SpecSimpleAttr>>),
}

/// Classification of a scalar-position wire value: null, objects and arrays
/// are rejected.
pub open spec fn spec_simple_from_wire(v: SpecWire) -> Result<SpecSimpleAttr, ScimError> {
    match v {
        SpecWire::Str(s) => Ok(SpecSimpleAttr::String(s)),
        SpecWire::Bool(b) => Ok(SpecSimpleAttr::Bool(b)),
        SpecWire::Number(n) => Ok(SpecSimpleAttr::Number(n)),
        _ => Err(ScimError::InvalidSingleValue),
    }
}

/// The scalar denoted by a scalar wire value; meaningful only where
/// `spec_simple_from_wire` succeeds.
pub open spec fn spec_simple_val(v: SpecWire) -> SpecSimpleAttr {
    match spec_simple_from_wire(v) {
        Ok(a) => a,
        Err(_) => SpecSimpleAttr::Bool(false),
    }
}

/// Every value of a wire object is a scalar.
pub open spec fn spec_obj_scalars(m: Map<Seq<char>, SpecWire>) -> bool {
    forall|k: Seq<char>| m.contains_key(k) ==> spec_simple_from_wire(#[trigger] m[k]) is Ok
}

/// Conversion of a wire object into a complex attribute: every value must
/// be a scalar, and the first failure propagates as `InvalidSingleValue`.
pub open spec fn spec_complex_from_obj(m: Map<Seq<char>, SpecWire>) -> Result<
    Map<Seq<char>, SpecSimpleAttr>,
    ScimError,
> {
    if spec_obj_scalars(m) {
        Ok(m.map_values(|v: SpecWire| spec_simple_val(v)))
    } else {
        Err(ScimError::InvalidSingleValue)
    }
}

/// Conversion of an arbitrary wire value into a complex attribute: a
/// non-object is rejected as `InconsistentMultiValue`.
pub open spec fn spec_complex_from_wire(v: SpecWire) -> Result<
    Map<Seq<char>, SpecSimpleAttr>,
    ScimError,
> {
    match v {
        SpecWire::Obj(m) => spec_complex_from_obj(m),
        _ => Err(ScimError::InconsistentMultiValue),
    }
}

/// Element-wise scalar conversion of a wire array; the first element
/// failure propagates and no partial result is kept.
pub open spec fn spec_multi_simple(s: Seq<SpecWire>) -> Result<Seq<SpecSimpleAttr>, ScimError>
    decreases s.len(),
{
    if s.len() == 0 {
        Ok(Seq::empty())
    } else {
        match spec_multi_simple(s.drop_last()) {
            Err(e) => Err(e),
            Ok(t) => match spec_simple_from_wire(s.last()) {
                Err(e) => Err(e),
                Ok(a) => Ok(t.push(a)),
            },
        }
    }
}

/// Element-wise complex conversion of a wire array; the first element
/// failure propagates and no partial result is kept.
pub open spec fn spec_multi_complex(s: Seq<SpecWire>) -> Result<
    Seq<Map<Seq<char>, SpecSimpleAttr>>,
    ScimError,
>
    decreases s.len(),
{
    if s.len() == 0 {
        Ok(Seq::empty())
    } else {
        match spec_multi_complex(s.drop_last()) {
            Err(e) => Err(e),
            Ok(t) => match spec_complex_from_wire(s.last()) {
                Err(e) => Err(e),
                Ok(m) => Ok(t.push(m)),
            },
        }
    }
}

/// The classification algorithm over a whole wire value: an array is
/// classified by its first element, an object becomes a single complex
/// attribute, and anything else a single scalar.
pub open spec fn spec_attr_from_wire(v: SpecWire) -> Result<SpecAttr, ScimError> {
    match v {
        SpecWire::Arr(elems) => if elems.len() == 0 {
            Err(ScimError::EmptyMultiValue)
        } else if elems[0] is Arr {
            Err(ScimError::NestedMultiValue)
        } else if elems[0] is Obj {
            match spec_multi_complex(elems) {
                Err(e) => Err(e),
                Ok(s) => Ok(SpecAttr::MultiComplex(s)),
            }
        } else {
            match spec_multi_simple(elems) {
                Err(e) => Err(e),
                Ok(s) => Ok(SpecAttr::MultiSimple(s)),
            }
        },
        SpecWire::Obj(m) => match spec_complex_from_obj(m) {
            Err(e) => Err(e),
            Ok(cm) => Ok(SpecAttr::SingleComplex(cm)),
        },
        other => match spec_simple_from_wire(other) {
            Err(e) => Err(e),
            Ok(a) => Ok(SpecAttr::SingleSimple(a)),
        },
    }
}

/// The wire shape a scalar attribute serializes back to.
pub open spec fn spec_simple_to_wire(a: SpecSimpleAttr) -> SpecWire {
    match a {
        SpecSimpleAttr::String(s) => SpecWire::Str(s),
        SpecSimpleAttr::Bool(b) => SpecWire::Bool(b),
        SpecSimpleAttr::Number(n) => SpecWire::Number(n),
    }
}

/// The wire shape a complex attribute serializes back to.
pub open spec fn spec_complex_to_wire(m: Map<Seq<char>, SpecSimpleAttr>) -> SpecWire {
    SpecWire::Obj(m.map_values(|a: SpecSimpleAttr| spec_simple_to_wire(a)))
}

/// The wire shape an attribute serializes back to: the exact inverse of
/// classification.
pub open spec fn spec_attr_to_wire(a: SpecAttr) -> SpecWire {
    match a {
        SpecAttr::SingleSimple(sa) => spec_simple_to_wire(sa),
        SpecAttr::SingleComplex(m) => spec_complex_to_wire(m),
        SpecAttr::MultiSimple(s) => SpecWire::Arr(
            s.map_values(|sa: SpecSimpleAttr| spec_simple_to_wire(sa)),
        ),
        SpecAttr::MultiComplex(ms) => SpecWire::Arr(
            ms.map_values(|m: Map<Seq<char>, SpecSimpleAttr>| spec_complex_to_wire(m)),
        ),
    }
}

/// One scalar wire value: a string, a boolean, or a number carried as its
/// wire text. Never constructed from null, an object, or an array.
#[derive(Debug, Clone, PartialEq, Eq)]
pub enum ScimSimpleAttr {
    String(String),
    Bool(bool),
    Number(String),
}

impl DeepView for ScimSimpleAttr {
    type V = SpecSimpleAttr;

    open spec fn deep_view(&self) -> SpecSimpleAttr {
        match self {
            ScimSimpleAttr::String(s) => SpecSimpleAttr::String(s@),
            ScimSimpleAttr::Bool(b) => SpecSimpleAttr::Bool(*b),
            ScimSimpleAttr::Number(n) => SpecSimpleAttr::Number(n@),
        }
    }
}

impl ScimSimpleAttr {
    /// Classify a scalar-position wire value.
    pub fn try_from_wire(value: WireValue) -> (r: Result<ScimSimpleAttr, ScimError>)
        ensures
            match r {
                Ok(a) => spec_simple_from_wire(value@) == Ok::<_, ScimError>(a.deep_view()),
                Err(e) => spec_simple_from_wire(value@) == Err::<SpecSimpleAttr, _>(e),
            },
    {
        match value {
            WireValue::Str(s) => Ok(ScimSimpleAttr::String(s)),
            WireValue::Bool(b) => Ok(ScimSimpleAttr::Bool(b)),
            WireValue::Number(n) => Ok(ScimSimpleAttr::Number(n)),
            _ => Err(ScimError::InvalidSingleValue),
        }
    }

    /// Serialize back to the wire shape this scalar was classified from.
    pub fn into_wire(self) -> (r: WireValue)
        ensures
            r@ == spec_simple_to_wire(self.deep_view()),
            r.wf(),
    {
        match self {
            ScimSimpleAttr::String(s) => WireValue::Str(s),
            ScimSimpleAttr::Bool(b) => WireValue::Bool(b),
            ScimSimpleAttr::Number(n) => WireValue::Number(n),
        }
    }
}

/// One nested wire structure: a single level of named scalar sub-attributes.
#[derive(Debug, Clone, PartialEq, Eq)]
pub struct ScimComplexAttr {
    pub attrs: AttrMap<ScimSimpleAttr>,
}

impl DeepView for ScimComplexAttr {
    type V = Map<Seq<char>, SpecSimpleAttr>;

    open spec fn deep_view(&self) -> Map<Seq<char>, SpecSimpleAttr> {
        self.attrs.deep_view()
    }
}

impl ScimComplexAttr {
    /// Well-formedness: sub-attribute names are pairwise distinct.
    pub open spec fn wf(&self) -> bool {
        self.attrs.wf()
    }

    /// Classify the key/value pairs of a wire object as a complex
    /// attribute; the first scalar-conversion failure propagates.
    #[verifier::loop_isolation(false)]
    pub fn try_from_obj(pairs: Vec<(String, WireValue)>) -> (r: Result<ScimComplexAttr, ScimError>)
        requires
            pairs_unique(wire_view_pairs(pairs@)),
        ensures
            match r {
                Ok(c) => spec_complex_from_obj(pairs_map(wire_view_pairs(pairs@)))
                    == Ok::<_, ScimError>(c.deep_view()) && c.wf(),
                Err(e) => spec_complex_from_obj(pairs_map(wire_view_pairs(pairs@)))
                    == Err::<Map<Seq<char>, SpecSimpleAttr>, _>(e),
            },
    {
        let ghost all = pairs@;
        let ghost allv = wire_view_pairs(all);
        proof {
            lemma_wire_view_pairs(all);
        }
        let mut rest = pairs;
        let n = rest.len();
        let mut m = AttrMap::<ScimSimpleAttr>::new();
        let mut i: usize = 0;
        while i < n
            invariant
                i <= n,
                n == all.len(),
                allv == wire_view_pairs(all),
                allv.len() == n,
                pairs_unique(allv),
                forall|j: int| 0 <= j < n ==> #[trigger] allv[j] == (all[j].0@, wire_view(
                    &all[j].1,
                )),
                rest@ == all.skip(i as int),
                m.wf(),
                forall|j: int| 0 <= j < i ==> spec_simple_from_wire(
                    (#[trigger] allv[j]).1,
                ) is Ok,
                m@ == pairs_map(allv.take(i as int)).map_values(
                    |v: SpecWire| spec_simple_val(v),
                ),
            decreases n - i,
        {
            proof {
                assert(all.skip(i as int)[0] == all[i as int]);
            }
            let (k, v) = rest.remove(0);
            proof {
                assert(rest@ =~= all.skip(i as int + 1));
            }
            match ScimSimpleAttr::try_from_wire(v) {
                Ok(sa) => {
                    proof {
                        let prev = pairs_map(allv.take(i as int)).map_values(
                            |w: SpecWire| spec_simple_val(w),
                        );
                        assert(allv.take(i as int + 1).drop_last() =~= allv.take(i as int));
                        assert(allv.take(i as int + 1).last() == allv[i as int]);
                        lemma_map_values_insert(
                            pairs_map(allv.take(i as int)),
                            allv[i as int].0,
                            allv[i as int].1,
                            |w: SpecWire| spec_simple_val(w),
                        );
                        assert(sa.deep_view() == spec_simple_val(allv[i as int].1));
                    }
                    m.insert(k, sa);
                    proof {
                        assert(m@ =~= pairs_map(allv.take(i as int + 1)).map_values(
                            |w: SpecWire| spec_simple_val(w),
                        ));
                    }
                },
                Err(e) => {
                    proof {
                        lemma_pairs_map_index(allv, i as int);
                        assert(pairs_map(allv).contains_key(allv[i as int].0));
                        assert(spec_simple_from_wire(pairs_map(allv)[allv[i as int].0]) is Err);
                        assert(!spec_obj_scalars(pairs_map(allv)));
                        assert(e == ScimError::InvalidSingleValue);
                    }
                    return Err(e);
                },
            }
            i += 1;
        }
        proof {
            assert(allv.take(n as int) =~= allv);
            let full = pairs_map(allv);
            assert forall|k: Seq<char>| full.contains_key(k) implies spec_simple_from_wire(
                #[trigger] full[k]) is Ok by {
                lemma_pairs_map_contains(allv, k);
                let j = choose|j: int| 0 <= j < allv.len() && (#[trigger] allv[j]).0 == k;
                lemma_pairs_map_index(allv, j);
            }
        }
        Ok(ScimComplexAttr { attrs: m })
    }

    /// Classify an arbitrary wire value as a complex attribute; a
    /// non-object is rejected as `InconsistentMultiValue`.
    pub fn try_from_wire(value: WireValue) -> (r: Result<ScimComplexAttr, ScimError>)
        requires
            value.wf(),
        ensures
            match r {
                Ok(c) => spec_complex_from_wire(value@) == Ok::<_, ScimError>(c.deep_view())
                    && c.wf(),
                Err(e) => spec_complex_from_wire(value@) == Err::<
                    Map<Seq<char>, SpecSimpleAttr>,
                    _,
                >(e),
            },
    {
        match value {
            WireValue::Object(pairs) => Self::try_from_obj(pairs),
            _ => Err(ScimError::InconsistentMultiValue),
        }
    }

    /// Serialize back to the wire object this complex attribute was
    /// classified from.
    #[verifier::loop_isolation(false)]
    pub fn into_wire(self) -> (r: WireValue)
        ensures
            r@ == spec_complex_to_wire(self.deep_view()),
            self.wf() ==> r.wf(),
    {
        let ghost all = self.attrs.entries@;
        let ghost wf_in = self.wf();
        let mut entries = self.attrs.entries;
        let n = entries.len();
        let mut out: Vec<(String, WireValue)> = Vec::new();
        let mut i: usize = 0;
        while i < n
            invariant
                i <= n,
                n == all.len(),
                entries@ == all.skip(i as int),
                out@.len() == i,
                forall|j: int| 0 <= j < i ==> (#[trigger] out@[j]).0 == all[j].0,
                forall|j: int| 0 <= j < i ==> wire_view(&(#[trigger] out@[j]).1)
                    == spec_simple_to_wire(all[j].1.deep_view()),
                forall|j: int| 0 <= j < i ==> wire_wf(&(#[trigger] out@[j]).1),
            decreases n - i,
        {
            proof {
                assert(all.skip(i as int)[0] == all[i as int]);
            }
            let (k, sv) = entries.remove(0);
            proof {
                assert(entries@ =~= all.skip(i as int + 1));
            }
            let w = sv.into_wire();
            out.push((k, w));
            i += 1;
        }
        proof {
            lemma_wire_view_pairs(out@);
            assert forall|j: int| 0 <= j < n implies #[trigger] wire_view_pairs(out@)[j]
                == ((#[trigger] entry_views(all)[j]).0, spec_simple_to_wire(
                entry_views(all)[j].1)) by {
                assert(out@[j].0 == all[j].0);
            }
            crate::attrmap::lemma_pairs_map_map_values(
                entry_views(all),
                wire_view_pairs(out@),
                |a: SpecSimpleAttr| spec_simple_to_wire(a),
            );
            if wf_in {
                assert forall|x: int, y: int| 0 <= x < y < wire_view_pairs(out@).len() implies (
                    #[trigger] wire_view_pairs(out@)[x]).0 != (
                    #[trigger] wire_view_pairs(out@)[y]).0 by {
                    assert((#[trigger] entry_views(all)[x]).0 != (
                        #[trigger] entry_views(all)[y]).0);
                }
                lemma_wire_wf_pairs(out@);
            }
        }
        WireValue::Object(out)
    }
}

/// The length of an attribute: 1 for the single shapes, the element count
/// for the multi shapes.
pub open spec fn spec_attr_len(a: SpecAttr) -> int {
    match a {
        SpecAttr::SingleSimple(_) => 1,
        SpecAttr::SingleComplex(_) => 1,
        SpecAttr::MultiSimple(s) => s.len() as int,
        SpecAttr::MultiComplex(s) => s.len() as int,
    }
}

/// A conversion whose elements up to an index succeed and whose element at
/// the index fails, fails with that element's error.
pub proof fn lemma_multi_simple_first_err(s: Seq<SpecWire>, i: int, e: ScimError)
    requires
        0 <= i < s.len(),
        spec_multi_simple(s.take(i)) is Ok,
        spec_simple_from_wire(s[i]) == Err::<SpecSimpleAttr, _>(e),
    ensures
        spec_multi_simple(s) == Err::<Seq<SpecSimpleAttr>, _>(e),
    decreases s.len(),
{
    if i == s.len() - 1 {
        assert(s.take(i) =~= s.drop_last());
    } else {
        assert(s.drop_last().take(i) =~= s.take(i));
        assert(s.drop_last()[i] == s[i]);
        lemma_multi_simple_first_err(s.drop_last(), i, e);
    }
}

/// A conversion whose elements up to an index succeed and whose element at
/// the index fails, fails with that element's error.
pub proof fn lemma_multi_complex_first_err(s: Seq<SpecWire>, i: int, e: ScimError)
    requires
        0 <= i < s.len(),
        spec_multi_complex(s.take(i)) is Ok,
        spec_complex_from_wire(s[i]) == Err::<Map<Seq<char>, SpecSimpleAttr>, _>(e),
    ensures
        spec_multi_complex(s) == Err::<Seq<Map<Seq<char>, SpecSimpleAttr>>, _>(e),
    decreases s.len(),
{
    if i == s.len() - 1 {
        assert(s.take(i) =~= s.drop_last());
    } else {
        assert(s.drop_last().take(i) =~= s.take(i));
        assert(s.drop_last()[i] == s[i]);
        lemma_multi_complex_first_err(s.drop_last(), i, e);
    }
}

/// One wire attribute's full shape: {single, multi} x {simple, complex}.
#[derive(Debug, Clone, PartialEq, Eq)]
pub enum ScimAttr {
    SingleSimple(ScimSimpleAttr),
    SingleComplex(ScimComplexAttr),
    MultiSimple(Vec<ScimSimpleAttr>),
    MultiComplex(Vec<ScimComplexAttr>),
}

impl DeepView for ScimAttr {
    type V = SpecAttr;

    open spec fn deep_view(&self) -> SpecAttr {
        match self {
            ScimAttr::SingleSimple(sa) => SpecAttr::SingleSimple(sa.deep_view()),
            ScimAttr::SingleComplex(c) => SpecAttr::SingleComplex(c.deep_view()),
            ScimAttr::MultiSimple(v) => SpecAttr::MultiSimple(v.deep_view()),
            ScimAttr::MultiComplex(v) => SpecAttr::MultiComplex(v.deep_view()),
        }
    }
}

impl ScimAttr {
    /// Well-formedness: every complex attribute in the shape is well-formed.
    pub open spec fn wf(&self) -> bool {
        match self {
            ScimAttr::SingleSimple(_) => true,
            ScimAttr::SingleComplex(c) => c.wf(),
            ScimAttr::MultiSimple(_) => true,
            ScimAttr::MultiComplex(v) => forall|i: int| 0 <= i < v@.len() ==> (
                #[trigger] v@[i]).wf(),
        }
    }

    /// The number of values this attribute carries.
    pub fn len(&self) -> (r: usize)
        ensures
            r == spec_attr_len(self.deep_view()),
    {
        match self {
            ScimAttr::SingleSimple(_) => 1,
            ScimAttr::SingleComplex(_) => 1,
            ScimAttr::MultiSimple(a) => a.len(),
            ScimAttr::MultiComplex(a) => a.len(),
        }
    }

    /// The classification algorithm: interpret a raw wire value as the
    /// correctly-shaped attribute.
    #[verifier::loop_isolation(false)]
    pub fn try_from_wire(value: WireValue) -> (r: Result<ScimAttr, ScimError>)
        requires
            value.wf(),
        ensures
            match r {
                Ok(a) => spec_attr_from_wire(value@) == Ok::<_, ScimError>(a.deep_view())
                    && a.wf(),
                Err(e) => spec_attr_from_wire(value@) == Err::<SpecAttr, _>(e),
            },
    {
        match value {
            WireValue::Array(elems) => {
                let ghost all = elems@;
                let ghost allv = wire_view_seq(all);
                proof {
                    lemma_wire_view_seq(all);
                    lemma_wire_wf_seq(all);
                }
                if elems.len() == 0 {
                    return Err(ScimError::EmptyMultiValue);
                }
                let first_obj: bool;
                match &elems[0] {
                    WireValue::Array(_) => {
                        return Err(ScimError::NestedMultiValue);
                    },
                    WireValue::Object(_) => {
                        first_obj = true;
                    },
                    _ => {
                        first_obj = false;
                    },
                }
                let mut rest = elems;
                let n = rest.len();
                let mut i: usize = 0;
                if first_obj {
                    let mut out: Vec<ScimComplexAttr> = Vec::new();
                    proof {
                        assert(out.deep_view() =~= Seq::<Map<Seq<char>, SpecSimpleAttr>>::empty());
                        assert(spec_multi_complex(allv.take(0)) == Ok::<_, ScimError>(
                            out.deep_view()));
                    }
                    while i < n
                        invariant
                            i <= n,
                            rest@ == all.skip(i as int),
                            out@.len() == i,
                            spec_multi_complex(allv.take(i as int)) == Ok::<_, ScimError>(
                                out.deep_view()),
                            forall|j: int| 0 <= j < i ==> (#[trigger] out@[j]).wf(),
                        decreases n - i,
                    {
                        proof {
                            assert(all.skip(i as int)[0] == all[i as int]);
                        }
                        let v = rest.remove(0);
                        proof {
                            assert(rest@ =~= all.skip(i as int + 1));
                        }
                        match ScimComplexAttr::try_from_wire(v) {
                            Ok(c) => {
                                proof {
                                    assert(allv.take(i as int + 1).drop_last() =~= allv.take(
                                        i as int));
                                    assert(allv.take(i as int + 1).last() == allv[i as int]);
                                }
                                out.push(c);
                                proof {
                                    assert(out.deep_view() =~= spec_multi_complex(allv.take(
                                        i as int + 1))->Ok_0);
                                }
                            },
                            Err(e) => {
                                proof {
                                    lemma_multi_complex_first_err(allv, i as int, e);
                                }
                                return Err(e);
                            },
                        }
                        i += 1;
                    }
                    proof {
                        assert(allv.take(n as int) =~= allv);
                    }
                    Ok(ScimAttr::MultiComplex(out))
                } else {
                    let mut out: Vec<ScimSimpleAttr> = Vec::new();
                    proof {
                        assert(out.deep_view() =~= Seq::<SpecSimpleAttr>::empty());
                        assert(spec_multi_simple(allv.take(0)) == Ok::<_, ScimError>(
                            out.deep_view()));
                    }
                    while i < n
                        invariant
                            i <= n,
                            rest@ == all.skip(i as int),
                            out@.len() == i,
                            spec_multi_simple(allv.take(i as int)) == Ok::<_, ScimError>(
                                out.deep_view()),
                        decreases n - i,
                    {
                        proof {
                            assert(all.skip(i as int)[0] == all[i as int]);
                        }
                        let v = rest.remove(0);
                        proof {
                            assert(rest@ =~= all.skip(i as int + 1));
                        }
                        match ScimSimpleAttr::try_from_wire(v) {
                            Ok(sa) => {
                                proof {
                                    assert(allv.take(i as int + 1).drop_last() =~= allv.take(
                                        i as int));
                                    assert(allv.take(i as int + 1).last() == allv[i as int]);
                                }
                                out.push(sa);
                                proof {
                                    assert(out.deep_view() =~= spec_multi_simple(allv.take(
                                        i as int + 1))->Ok_0);
                                }
                            },
                            Err(e) => {
                                proof {
                                    lemma_multi_simple_first_err(allv, i as int, e);
                                }
                                return Err(e);
                            },
                        }
                        i += 1;
                    }
                    proof {
                        assert(allv.take(n as int) =~= allv);
                    }
                    Ok(ScimAttr::MultiSimple(out))
                }
            },
            WireValue::Object(pairs) => {
                match ScimComplexAttr::try_from_obj(pairs) {
                    Ok(c) => Ok(ScimAttr::SingleComplex(c)),
                    Err(e) => Err(e),
                }
            },
            other => {
                match ScimSimpleAttr::try_from_wire(other) {
                    Ok(sa) => Ok(ScimAttr::SingleSimple(sa)),
                    Err(e) => Err(e),
                }
            },
        }
    }

    /// Serialize back to the wire shape this attribute was classified from.
    #[verifier::loop_isolation(false)]
    pub fn into_wire(self) -> (r: WireValue)
        ensures
            r@ == spec_attr_to_wire(self.deep_view()),
            self.wf() ==> r.wf(),
    {
        match self {
            ScimAttr::SingleSimple(sa) => sa.into_wire(),
            ScimAttr::SingleComplex(c) => c.into_wire(),
            ScimAttr::MultiSimple(v) => {
                let ghost all = v@;
                let mut rest = v;
                let n = rest.len();
                let mut out: Vec<WireValue> = Vec::new();
                let mut i: usize = 0;
                while i < n
                    invariant
                        i <= n,
                        rest@ == all.skip(i as int),
                        out@.len() == i,
                        forall|j: int| 0 <= j < i ==> wire_view(&(#[trigger] out@[j]))
                            == spec_simple_to_wire(all[j].deep_view()),
                        forall|j: int| 0 <= j < i ==> wire_wf(&(#[trigger] out@[j])),
                    decreases n - i,
                {
                    proof {
                        assert(all.skip(i as int)[0] == all[i as int]);
                    }
                    let sa = rest.remove(0);
                    proof {
                        assert(rest@ =~= all.skip(i as int + 1));
                    }
                    let w = sa.into_wire();
                    out.push(w);
                    i += 1;
                }
                proof {
                    lemma_wire_view_seq(out@);
                    lemma_wire_wf_seq(out@);
                    let dv = self->MultiSimple_0.deep_view();
                    assert(dv.len() == n);
                    assert forall|j: int| 0 <= j < n implies wire_view_seq(out@)[j]
                        == dv.map_values(|sa: SpecSimpleAttr| spec_simple_to_wire(sa))[j] by {
                        assert(dv[j] == all[j].deep_view());
                    }
                    assert(wire_view_seq(out@) =~~= dv.map_values(
                        |sa: SpecSimpleAttr| spec_simple_to_wire(sa)));
                    assert(SpecWire::Arr(wire_view_seq(out@)) =~~= spec_attr_to_wire(
                        self.deep_view()));
                }
                WireValue::Array(out)
            },
            ScimAttr::MultiComplex(v) => {
                let ghost all = v@;
                let ghost wf_in = forall|i: int| 0 <= i < all.len() ==> (#[trigger] all[i]).wf();
                let mut rest = v;
                let n = rest.len();
                let mut out: Vec<WireValue> = Vec::new();
                let mut i: usize = 0;
                while i < n
                    invariant
                        i <= n,
                        rest@ == all.skip(i as int),
                        out@.len() == i,
                        forall|j: int| 0 <= j < i ==> wire_view(&(#[trigger] out@[j]))
                            == spec_complex_to_wire(all[j].deep_view()),
                        forall|j: int| 0 <= j < i ==> ((#[trigger] all[j]).wf() ==> wire_wf(
                            &out@[j])),
                    decreases n - i,
                {
                    proof {
                        assert(all.skip(i as int)[0] == all[i as int]);
                    }
                    let c = rest.remove(0);
                    proof {
                        assert(rest@ =~= all.skip(i as int + 1));
                    }
                    let w = c.into_wire();
                    out.push(w);
                    i += 1;
                }
                proof {
                    lemma_wire_view_seq(out@);
                    lemma_wire_wf_seq(out@);
                    let dv = self->MultiComplex_0.deep_view();
                    assert(dv.len() == n);
                    assert forall|j: int| 0 <= j < n implies wire_view_seq(out@)[j]
                        == dv.map_values(
                        |m: Map<Seq<char>, SpecSimpleAttr>| spec_complex_to_wire(m))[j] by {
                        assert(dv[j] == all[j].deep_view());
                    }
                    assert(wire_view_seq(out@) =~~= dv.map_values(
                        |m: Map<Seq<char>, SpecSimpleAttr>| spec_complex_to_wire(m)));
                    assert(SpecWire::Arr(wire_view_seq(out@)) =~~= spec_attr_to_wire(
                        self.deep_view()));
                }
                WireValue::Array(out)
            },
        }
    }
}

/// Classifying a scalar then serializing it yields the original value.
pub proof fn lemma_simple_round_trip(v: SpecWire, a: SpecSimpleAttr)
    requires
        spec_simple_from_wire(v) == Ok::<_, ScimError>(a),
    ensures
        spec_simple_to_wire(a) == v,
{
}

/// Classifying an object then serializing it yields the original object.
pub proof fn lemma_complex_round_trip(m: Map<Seq<char>, SpecWire>, cm: Map<
    Seq<char>,
    SpecSimpleAttr,
>)
    requires
        spec_complex_from_obj(m) == Ok::<_, ScimError>(cm),
    ensures
        spec_complex_to_wire(cm) == SpecWire::Obj(m),
{
    assert(cm.map_values(|a: SpecSimpleAttr| spec_simple_to_wire(a)) =~= m);
}

/// Element-wise round trip for arrays of scalars.
pub proof fn lemma_multi_simple_round_trip(s: Seq<SpecWire>, t: Seq<SpecSimpleAttr>)
    requires
        spec_multi_simple(s) == Ok::<_, ScimError>(t),
    ensures
        t.map_values(|sa: SpecSimpleAttr| spec_simple_to_wire(sa)) =~~= s,
    decreases s.len(),
{
    if s.len() > 0 {
        let pre = spec_multi_simple(s.drop_last())->Ok_0;
        let a = spec_simple_from_wire(s.last())->Ok_0;
        assert(spec_multi_simple(s.drop_last()) is Ok);
        assert(spec_simple_from_wire(s.last()) is Ok);
        assert(t == pre.push(a));
        lemma_multi_simple_round_trip(s.drop_last(), pre);
        lemma_simple_round_trip(s.last(), a);
        assert(spec_simple_to_wire(a) == s.last());
        assert(pre.map_values(|sa: SpecSimpleAttr| spec_simple_to_wire(sa)) == s.drop_last());
        assert(t.len() == s.len());
        assert forall|j: int| 0 <= j < s.len() implies t.map_values(
            |sa: SpecSimpleAttr| spec_simple_to_wire(sa))[j] == s[j] by {
            if j < s.len() - 1 {
                assert(t[j] == pre[j]);
                assert(spec_simple_to_wire(pre[j]) == pre.map_values(
                    |sa: SpecSimpleAttr| spec_simple_to_wire(sa))[j]);
                assert(s.drop_last()[j] == s[j]);
            } else {
                assert(t[j] == a);
            }
        }
        assert(t.map_values(|sa: SpecSimpleAttr| spec_simple_to_wire(sa)) =~~= s);
    } else {
        assert(t.map_values(|sa: SpecSimpleAttr| spec_simple_to_wire(sa)) =~~= s);
    }
}

/// Element-wise round trip for arrays of objects.
pub proof fn lemma_multi_complex_round_trip(s: Seq<SpecWire>, t: Seq<Map<Seq<char>, SpecSimpleAttr>>)
    requires
        spec_multi_complex(s) == Ok::<_, ScimError>(t),
    ensures
        t.map_values(|m: Map<Seq<char>, SpecSimpleAttr>| spec_complex_to_wire(m)) =~~= s,
    decreases s.len(),
{
    if s.len() > 0 {
        let pre = spec_multi_complex(s.drop_last())->Ok_0;
        let lm = spec_complex_from_wire(s.last())->Ok_0;
        assert(spec_multi_complex(s.drop_last()) is Ok);
        assert(spec_complex_from_wire(s.last()) is Ok);
        assert(t == pre.push(lm));
        lemma_multi_complex_round_trip(s.drop_last(), pre);
        assert(s.last() is Obj);
        lemma_complex_round_trip(s.last()->Obj_0, lm);
        assert(spec_complex_to_wire(lm) == s.last());
        assert(pre.map_values(|m: Map<Seq<char>, SpecSimpleAttr>| spec_complex_to_wire(m))
            == s.drop_last());
        assert(t.len() == s.len());
        assert forall|j: int| 0 <= j < s.len() implies t.map_values(
            |m: Map<Seq<char>, SpecSimpleAttr>| spec_complex_to_wire(m))[j] == s[j] by {
            if j < s.len() - 1 {
                assert(t[j] == pre[j]);
                assert(spec_complex_to_wire(pre[j]) == pre.map_values(
                    |m: Map<Seq<char>, SpecSimpleAttr>| spec_complex_to_wire(m))[j]);
                assert(s.drop_last()[j] == s[j]);
            } else {
                assert(t[j] == lm);
            }
        }
        assert(t.map_values(|m: Map<Seq<char>, SpecSimpleAttr>| spec_complex_to_wire(m)) =~~= s);
    } else {
        assert(t.map_values(|m: Map<Seq<char>, SpecSimpleAttr>| spec_complex_to_wire(m)) =~~= s);
    }
}

/// Round-trip law of the classification: a wire value that classifies
/// successfully serializes back to exactly itself.
pub proof fn lemma_attr_round_trip(v: SpecWire, a: SpecAttr)
    requires
        spec_attr_from_wire(v) == Ok::<_, ScimError>(a),
    ensures
        spec_attr_to_wire(a) == v,
{
    match v {
        SpecWire::Arr(elems) => {
            if elems[0] is Obj {
                lemma_multi_complex_round_trip(elems, a->MultiComplex_0);
            } else {
                lemma_multi_simple_round_trip(elems, a->MultiSimple_0);
            }
        },
        SpecWire::Obj(m) => {
            lemma_complex_round_trip(m, a->SingleComplex_0);
        },
        other => {
            lemma_simple_round_trip(other, a->SingleSimple_0);
        },
    }
}

/// Classification is exhaustive over the shapes of a wire array: an empty
/// array, an array-headed array, an object-headed array and a scalar-headed
/// array are each classified as the protocol prescribes.
pub proof fn lemma_classification_exhaustive(elems: Seq<SpecWire>)
    ensures
        elems.len() == 0 ==> spec_attr_from_wire(SpecWire::Arr(elems)) == Err::<SpecAttr, _>(
            ScimError::EmptyMultiValue,
        ),
        elems.len() > 0 && elems[0] is Arr ==> spec_attr_from_wire(SpecWire::Arr(elems))
            == Err::<SpecAttr, _>(ScimError::NestedMultiValue),
        elems.len() > 0 && elems[0] is Obj ==> (forall|a: SpecAttr|
            spec_attr_from_wire(SpecWire::Arr(elems)) == Ok::<_, ScimError>(a)
                ==> a is MultiComplex),
        elems.len() > 0 && !(elems[0] is Arr) && !(elems[0] is Obj) ==> (forall|a: SpecAttr|
            spec_attr_from_wire(SpecWire::Arr(elems)) == Ok::<_, ScimError>(a)
                ==> a is MultiSimple),
{
}

} // verus!
