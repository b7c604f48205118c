//! The wire-format value model: a JSON-like attribute tree as received in a
//! resource payload, together with its mathematical view.
//!
//! A number is carried as its decimal wire text; the conversion pipeline
//! never inspects it, so the text preserves the wire value exactly.

use vstd::prelude::*;

verus! {

broadcast use {vstd::std_specs::vec::axiom_vec_decreases_to_view, vstd::seq::group_seq_axioms};

/// Mathematical view of a wire value. An object is viewed as a map from
/// key to value, which makes structural equality of objects independent of
/// the order in which their keys were written.
#[verifier::ext_equal]
pub enum SpecWire {
    Null,
    Bool(bool),
    Number(Seq<char>),
    Str(Seq<char>),
    Arr(Seq<SpecWire>),
    Obj(Map<Seq<char>, SpecWire>),
}

/// The map described by an association list: a later pair with the same key
/// wins over an earlier one.
pub open spec fn pairs_map<T>(s: Seq<(Seq<char>, T)>) -> Map<Seq<char>, T>
    decreases s.len(),
{
    if s.len() == 0 {
        Map::empty()
    } else {
        pairs_map(s.drop_last()).insert(s.last().0, s.last().1)
    }
}

/// Keys of an association list are pairwise distinct.
pub open spec fn pairs_unique<T>(s: Seq<(Seq<char>, T)>) -> bool {
    forall|i: int, j: int| 0 <= i < j < s.len() ==> (#[trigger] s[i]).0 != (#[trigger] s[j]).0
}

/// One wire value of a resource payload.
#[derive(Debug)]
pub enum WireValue {
    Null,
    Bool(bool),
    Number(String),
    Str(String),
    Array(Vec<WireValue>),
    Object(Vec<(String, WireValue)>),
}

/// Mathematical view of a wire value, defined structurally.
pub open spec fn wire_view(v: &WireValue) -> SpecWire
    decreases v, 2int,
{
    match v {
        WireValue::Null => SpecWire::Null,
        WireValue::Bool(b) => SpecWire::Bool(*b),
        WireValue::Number(s) => SpecWire::Number(s@),
        WireValue::Str(s) => SpecWire::Str(s@),
        WireValue::Array(elems) => {
            proof {
                assert(decreases_to!(*v => *elems));
                assert(decreases_to!(*elems => elems@));
            }
            SpecWire::Arr(wire_view_seq(elems@))
        },
        WireValue::Object(pairs) => {
            proof {
                assert(decreases_to!(*v => *pairs));
                assert(decreases_to!(*pairs => pairs@));
            }
            SpecWire::Obj(pairs_map(wire_view_pairs(pairs@)))
        },
    }
}

/// Views of the elements of a wire array, in order.
pub open spec fn wire_view_seq(s: Seq<WireValue>) -> Seq<SpecWire>
    decreases s, 1int,
{
    if s.len() == 0 {
        Seq::empty()
    } else {
        wire_view_seq(s.drop_last()).push(wire_view(&s.last()))
    }
}

/// Views of the key/value pairs of a wire object, in order.
pub open spec fn wire_view_pairs(s: Seq<(String, WireValue)>) -> Seq<(Seq<char>, SpecWire)>
    decreases s, 1int,
{
    if s.len() == 0 {
        Seq::empty()
    } else {
        wire_view_pairs(s.drop_last()).push((s.last().0@, wire_view(&s.last().1)))
    }
}

impl View for WireValue {
    type V = SpecWire;

    open spec fn view(&self) -> SpecWire {
        wire_view(self)
    }
}

impl DeepView for WireValue {
    type V = SpecWire;

    open spec fn deep_view(&self) -> SpecWire {
        wire_view(self)
    }
}

/// The element views agree with the view of each element.
pub proof fn lemma_wire_view_seq(s: Seq<WireValue>)
    ensures
        wire_view_seq(s).len() == s.len(),
        forall|i: int| 0 <= i < s.len() ==> wire_view_seq(s)[i] == wire_view(&s[i]),
    decreases s.len(),
{
    if s.len() > 0 {
        lemma_wire_view_seq(s.drop_last());
    }
}

/// The pair views agree with the view of each pair.
pub proof fn lemma_wire_view_pairs(s: Seq<(String, WireValue)>)
    ensures
        wire_view_pairs(s).len() == s.len(),
        forall|i: int| 0 <= i < s.len() ==> wire_view_pairs(s)[i]
            == (s[i].0@, wire_view(&s[i].1)),
    decreases s.len(),
{
    if s.len() > 0 {
        lemma_wire_view_pairs(s.drop_last());
    }
}

/// Well-formedness of a wire value: every object in the tree has
/// pairwise-distinct keys.
pub open spec fn wire_wf(v: &WireValue) -> bool
    decreases v, 2int,
{
    match v {
        WireValue::Null => true,
        WireValue::Bool(_) => true,
        WireValue::Number(_) => true,
        WireValue::Str(_) => true,
        WireValue::Array(elems) => {
            proof {
                assert(decreases_to!(*v => *elems));
                assert(decreases_to!(*elems => elems@));
            }
            wire_wf_seq(elems@)
        },
        WireValue::Object(pairs) => {
            proof {
                assert(decreases_to!(*v => *pairs));
                assert(decreases_to!(*pairs => pairs@));
            }
            pairs_unique(wire_view_pairs(pairs@)) && wire_wf_pairs(pairs@)
        },
    }
}

/// Every element of a wire array is well-formed.
pub open spec fn wire_wf_seq(s: Seq<WireValue>) -> bool
    decreases s, 1int,
{
    if s.len() == 0 {
        true
    } else {
        wire_wf_seq(s.drop_last()) && wire_wf(&s.last())
    }
}

/// Every value of a wire object is well-formed.
pub open spec fn wire_wf_pairs(s: Seq<(String, WireValue)>) -> bool
    decreases s, 1int,
{
    if s.len() == 0 {
        true
    } else {
        wire_wf_pairs(s.drop_last()) && wire_wf(&s.last().1)
    }
}

impl WireValue {
    /// Well-formedness of a wire value.
    pub open spec fn wf(&self) -> bool {
        wire_wf(self)
    }
}

/// A wire array is well-formed exactly when each element is.
pub proof fn lemma_wire_wf_seq(s: Seq<WireValue>)
    ensures
        wire_wf_seq(s) <==> (forall|i: int| 0 <= i < s.len() ==> wire_wf(&(#[trigger] s[i]))),
    decreases s.len(),
{
    if s.len() > 0 {
        lemma_wire_wf_seq(s.drop_last());
        if wire_wf_seq(s) {
            assert forall|i: int| 0 <= i < s.len() implies wire_wf(&(#[trigger] s[i])) by {
                if i < s.len() - 1 {
                    assert(s.drop_last()[i] == s[i]);
                }
            }
        }
        if forall|i: int| 0 <= i < s.len() ==> wire_wf(&(#[trigger] s[i])) {
            assert forall|i: int| 0 <= i < s.drop_last().len() implies wire_wf(
                &(#[trigger] s.drop_last()[i])) by {
                assert(s.drop_last()[i] == s[i]);
            }
        }
    }
}

/// A wire object's values are well-formed exactly when each value is.
pub proof fn lemma_wire_wf_pairs(s: Seq<(String, WireValue)>)
    ensures
        wire_wf_pairs(s) <==> (forall|i: int| 0 <= i < s.len() ==> wire_wf(
            &(#[trigger] s[i]).1,
        )),
    decreases s.len(),
{
    if s.len() > 0 {
        lemma_wire_wf_pairs(s.drop_last());
        if wire_wf_pairs(s) {
            assert forall|i: int| 0 <= i < s.len() implies wire_wf(&(#[trigger] s[i]).1) by {
                if i < s.len() - 1 {
                    assert(s.drop_last()[i] == s[i]);
                }
            }
        }
        if forall|i: int| 0 <= i < s.len() ==> wire_wf(&(#[trigger] s[i]).1) {
            assert forall|i: int| 0 <= i < s.drop_last().len() implies wire_wf(
                &(#[trigger] s.drop_last()[i]).1) by {
                assert(s.drop_last()[i] == s[i]);
            }
        }
    }
}

} // verus!
