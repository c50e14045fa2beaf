//! A JSON document as plain values, for the caller to serialize.
//!
//! Numbers are either integers or 32-bit floats; a float is held as its bit
//! pattern and stands for that float widened to 64 bits.

use vstd::prelude::*;

verus! {

/// A JSON value.
pub enum JsonValue {
    Null,
    Bool(bool),
    Int(i64),
    /// The 32-bit float with these bits (widened to 64 bits when written).
    Real(u32),
    Str(String),
    Array(Vec<JsonValue>),
    /// Members in insertion order.
    Object(Vec<(String, JsonValue)>),
}

/// The value of a [`JsonValue`], with strings and lists as sequences.
#[verifier::ext_equal]
pub enum JsonView {
    Null,
    Bool(bool),
    Int(i64),
    Real(u32),
    Str(Seq<char>),
    Array(Seq<JsonView>),
    Object(Seq<(Seq<char>, JsonView)>),
}

/// The view of a JSON value.
pub open spec fn json_view(j: JsonValue) -> JsonView
    decreases j,
{
    match j {
        JsonValue::Null => JsonView::Null,
        JsonValue::Bool(b) => JsonView::Bool(b),
        JsonValue::Int(i) => JsonView::Int(i),
        JsonValue::Real(b) => JsonView::Real(b),
        JsonValue::Str(s) => JsonView::Str(s@),
        JsonValue::Array(v) => JsonView::Array(
            Seq::new(
                v@.len(),
                |i: int|
                    {
                        if 0 <= i < v@.len() {
                            json_view(v@[i])
                        } else {
                            JsonView::Null
                        }
                    },
            ),
        ),
        JsonValue::Object(m) => JsonView::Object(
            Seq::new(
                m@.len(),
                |i: int|
                    {
                        if 0 <= i < m@.len() {
                            (m@[i].0@, json_view(m@[i].1))
                        } else {
                            (Seq::empty(), JsonView::Null)
                        }
                    },
            ),
        ),
    }
}

impl View for JsonValue {
    type V = JsonView;

    open spec fn view(&self) -> JsonView {
        json_view(*self)
    }
}

/// The value under `key` among object members: the last member with that
/// name (a later member replaces an earlier one when the document is read),
/// or none when no member has it.
pub open spec fn last_member(ms: Seq<(Seq<char>, JsonView)>, key: Seq<char>) -> Option<JsonView>
    decreases ms.len(),
{
    if ms.len() == 0 {
        None
    } else if ms.last().0 == key {
        Some(ms.last().1)
    } else {
        last_member(ms.drop_last(), key)
    }
}

/// The value of member `key` of a JSON object; none for a value that is not
/// an object or has no such member.
pub open spec fn member(v: JsonView, key: Seq<char>) -> Option<JsonView> {
    match v {
        JsonView::Object(ms) => last_member(ms, key),
        _ => None,
    }
}

/// Looking a name up among the first `k + 1` members: the member at `k`
/// when it has the name, otherwise the lookup among the first `k`.
pub proof fn lemma_last_member_step(ms: Seq<(Seq<char>, JsonView)>, key: Seq<char>, k: int)
    requires
        0 <= k < ms.len(),
    ensures
        last_member(ms.subrange(0, k + 1), key) == if ms[k].0 == key {
            Some(ms[k].1)
        } else {
            last_member(ms.subrange(0, k), key)
        },
{
    assert(ms.subrange(0, k + 1).drop_last() =~= ms.subrange(0, k));
}

} // verus!
