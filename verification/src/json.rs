//! A JSON document model held as plain values.
//!
//! Numbers keep their decimal text, so no precision is lost and no
//! floating-point value is ever held.

use vstd::prelude::*;
use vstd::string::*;

verus! {

broadcast use vstd::std_specs::vec::group_vec_axioms;

/// A JSON value.
#[derive(Debug)]
pub enum JsonValue {
    Null,
    Bool(bool),
    /// A number, kept as its decimal text (e.g. `"10"`, `"-2.5e3"`).
    Number(String),
    Str(String),
    Array(Vec<JsonValue>),
    /// An object: its members in order.
    Object(Vec<(String, JsonValue)>),
}

/// The mathematical content of a JSON value.
pub enum JsonView {
    Null,
    Bool(bool),
    Number(Seq<char>),
    Str(Seq<char>),
    Array(Seq<JsonView>),
    Object(Seq<(Seq<char>, JsonView)>),
}

/// The content of a JSON value.
pub open spec fn json_view(v: JsonValue) -> JsonView
    decreases v, 1int,
{
    match v {
        JsonValue::Null => JsonView::Null,
        JsonValue::Bool(b) => JsonView::Bool(b),
        JsonValue::Number(n) => JsonView::Number(n@),
        JsonValue::Str(s) => JsonView::Str(s@),
        JsonValue::Array(items) => JsonView::Array(json_view_items(items@)),
        JsonValue::Object(members) => JsonView::Object(json_view_members(members@)),
    }
}

/// The contents of a sequence of JSON values.
pub open spec fn json_view_items(s: Seq<JsonValue>) -> Seq<JsonView>
    decreases s, 0int,
{
    if s.len() == 0 {
        Seq::empty()
    } else {
        json_view_items(s.drop_last()).push(json_view(s.last()))
    }
}

/// The contents of a sequence of object members.
pub open spec fn json_view_members(s: Seq<(String, JsonValue)>) -> Seq<(Seq<char>, JsonView)>
    decreases s, 0int,
{
    if s.len() == 0 {
        Seq::empty()
    } else {
        json_view_members(s.drop_last()).push((s.last().0@, json_view(s.last().1)))
    }
}

impl View for JsonValue {
    type V = JsonView;

    open spec fn view(&self) -> JsonView {
        json_view(*self)
    }
}

/// Deep copy of a JSON value.
#[verifier::loop_isolation(false)]
pub fn clone_json(v: &JsonValue) -> (r: JsonValue)
    ensures
        r@ == v@,
    decreases *v,
{
    match v {
        JsonValue::Null => JsonValue::Null,
        JsonValue::Bool(b) => JsonValue::Bool(*b),
        JsonValue::Number(n) => JsonValue::Number(n.clone()),
        JsonValue::Str(s) => JsonValue::Str(s.clone()),
        JsonValue::Array(items) => {
            let mut out: Vec<JsonValue> = Vec::new();
            let mut i: usize = 0;
            while i < items.len()
                invariant
                    i <= items.len(),
                    json_view_items(out@) == json_view_items(items@.subrange(0, i as int)),
                decreases items.len() - i,
            {
                proof {
                    vstd::std_specs::vec::axiom_vec_index_decreases(*items, i as int);
                    assert(decreases_to!(*v => (*v)->Array_0));
                    assert(decreases_to!(*v => items[i as int]));
                }
                let c = clone_json(&items[i]);
                let ghost before = out@;
                out.push(c);
                assert(out@.drop_last() == before);
                assert(items@.subrange(0, i + 1).drop_last() == items@.subrange(0, i as int));
                i += 1;
            }
            assert(items@.subrange(0, items.len() as int) == items@);
            JsonValue::Array(out)
        },
        JsonValue::Object(members) => {
            let mut out: Vec<(String, JsonValue)> = Vec::new();
            let mut i: usize = 0;
            while i < members.len()
                invariant
                    i <= members.len(),
                    json_view_members(out@) == json_view_members(members@.subrange(0, i as int)),
                decreases members.len() - i,
            {
                proof {
                    vstd::std_specs::vec::axiom_vec_index_decreases(*members, i as int);
                    assert(decreases_to!(*v => (*v)->Object_0));
                    assert(decreases_to!(*v => members[i as int].1));
                }
                let k = members[i].0.clone();
                let val = clone_json(&members[i].1);
                let ghost before = out@;
                out.push((k, val));
                assert(out@.drop_last() == before);
                assert(members@.subrange(0, i + 1).drop_last() == members@.subrange(0, i as int));
                i += 1;
            }
            assert(members@.subrange(0, members.len() as int) == members@);
            JsonValue::Object(out)
        },
    }
}

impl Clone for JsonValue {
    fn clone(&self) -> (r: Self)
        ensures
            r@ == self@,
    {
        clone_json(self)
    }
}

} // verus!
