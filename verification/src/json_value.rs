//! A JSON value as the library sees it: process variables, condition
//! contexts and variable defaults are held in this form.

use vstd::prelude::*;
use crate::lists::{lemma_first_match_at, lemma_first_match_none, lookup, same_key};
use crate::text::string_eq_chars;

verus! {

/// A JSON value. Numbers are held as their JSON text; an object holds its
/// members in order, and a lookup finds the first member with the key.
#[derive(Debug, PartialEq)]
pub enum JsonValue {
    /// `null`
    Null,
    /// `true` or `false`
    Bool(bool),
    /// A number, as its JSON text (for example `15000.0` or `-3`).
    Number(String),
    /// A string.
    String(String),
    /// An array.
    Array(Vec<JsonValue>),
    /// An object: its members, in order.
    Object(Vec<(String, JsonValue)>),
}

} // verus!

verus! {

/// The content of a JSON value, with its sequences as `Seq`s.
pub enum JsonData {
    Null,
    Bool(bool),
    Number(Seq<char>),
    String(Seq<char>),
    Array(Seq<JsonData>),
    Object(Seq<(Seq<char>, JsonData)>),
}

/// The content of `v`.
pub open spec fn json_data(v: JsonValue) -> JsonData
    decreases v, 0int,
{
    match v {
        JsonValue::Null => JsonData::Null,
        JsonValue::Bool(b) => JsonData::Bool(b),
        JsonValue::Number(n) => JsonData::Number(n@),
        JsonValue::String(s) => JsonData::String(s@),
        JsonValue::Array(items) => JsonData::Array(items_data(items@)),
        JsonValue::Object(members) => JsonData::Object(members_data(members@)),
    }
}

/// The contents of `items`.
pub open spec fn items_data(items: Seq<JsonValue>) -> Seq<JsonData>
    decreases items, 1int,
{
    if items.len() == 0 {
        Seq::empty()
    } else {
        seq![json_data(items[0])] + items_data(items.subrange(1, items.len() as int))
    }
}

/// The contents of `members`.
pub open spec fn members_data(members: Seq<(String, JsonValue)>) -> Seq<(Seq<char>, JsonData)>
    decreases members, 1int,
{
    if members.len() == 0 {
        Seq::empty()
    } else {
        seq![(members[0].0@, json_data(members[0].1))] + members_data(
            members.subrange(1, members.len() as int),
        )
    }
}

impl View for JsonValue {
    type V = JsonData;

    open spec fn view(&self) -> JsonData {
        json_data(*self)
    }
}

} // verus!

verus! {

/// The contents of `items` with `x` added are the contents of `items` with the content of `x` added.
pub proof fn lemma_items_data_push(items: Seq<JsonValue>, x: JsonValue)
    ensures
        items_data(items.push(x)) == items_data(items).push(json_data(x)),
    decreases items.len(),
{
    if items.len() == 0 {
        assert(items.push(x).subrange(1, 1) =~= Seq::<JsonValue>::empty());
        assert(items_data(Seq::<JsonValue>::empty()) =~= Seq::<JsonData>::empty());
        assert(items_data(items) =~= Seq::<JsonData>::empty());
        assert(items_data(items.push(x)) =~= seq![json_data(x)]);
    } else {
        assert(items.push(x).subrange(1, items.len() + 1 as int) =~= items.subrange(1, items.len() as int).push(x));
        lemma_items_data_push(items.subrange(1, items.len() as int), x);
        assert(items_data(items.push(x)) =~= items_data(items).push(json_data(x)));
    }
}

/// The contents of `members` with `x` added are the contents of `members` with the content of `x` added.
pub proof fn lemma_members_data_push(members: Seq<(String, JsonValue)>, x: (String, JsonValue))
    ensures
        members_data(members.push(x)) == members_data(members).push((x.0@, json_data(x.1))),
    decreases members.len(),
{
    if members.len() == 0 {
        assert(members.push(x).subrange(1, 1) =~= Seq::<(String, JsonValue)>::empty());
        assert(members_data(Seq::<(String, JsonValue)>::empty()) =~= Seq::<(Seq<char>, JsonData)>::empty());
        assert(members_data(members) =~= Seq::<(Seq<char>, JsonData)>::empty());
        assert(members_data(members.push(x)) =~= seq![(x.0@, json_data(x.1))]);
    } else {
        assert(members.push(x).subrange(1, members.len() + 1 as int) =~= members.subrange(1, members.len() as int).push(x));
        lemma_members_data_push(members.subrange(1, members.len() as int), x);
        assert(members_data(members.push(x)) =~= members_data(members).push((x.0@, json_data(x.1))));
    }
}

/// A copy of `v`.
pub fn clone_json(v: &JsonValue) -> (r: JsonValue)
    ensures
        r@ == v@,
    decreases v,
{
    match v {
        JsonValue::Null => JsonValue::Null,
        JsonValue::Bool(b) => JsonValue::Bool(*b),
        JsonValue::Number(n) => JsonValue::Number(n.clone()),
        JsonValue::String(s) => JsonValue::String(s.clone()),
        JsonValue::Array(items) => {
            let mut out: Vec<JsonValue> = Vec::new();
            let mut i: usize = 0;
            while i < items.len()
                invariant
                    *v == JsonValue::Array(*items),
                    i <= items.len(),
                    items_data(out@) == items_data(items@.take(i as int)),
                decreases items.len() - i,
            {
                proof {
                    assert(decreases_to!(*v => v->Array_0));
                    assert(decreases_to!(*items => items@));
                    assert(decreases_to!(items@ => items@[i as int]));
                }
                let c = clone_json(&items[i]);
                proof {
                    lemma_items_data_push(out@, c);
                    lemma_items_data_push(items@.take(i as int), items@[i as int]);
                    assert(items@.take(i + 1) =~= items@.take(i as int).push(items@[i as int]));
                }
                out.push(c);
                i = i + 1;
            }
            assert(items@.take(items.len() as int) =~= items@);
            JsonValue::Array(out)
        },
        JsonValue::Object(members) => {
            let mut out: Vec<(String, JsonValue)> = Vec::new();
            let mut i: usize = 0;
            while i < members.len()
                invariant
                    *v == JsonValue::Object(*members),
                    i <= members.len(),
                    members_data(out@) == members_data(members@.take(i as int)),
                decreases members.len() - i,
            {
                proof {
                    assert(decreases_to!(*v => v->Object_0));
                    assert(decreases_to!(*members => members@));
                    assert(decreases_to!(members@ => members@[i as int]));
                    assert(decreases_to!(members@[i as int] => members@[i as int].1));
                }
                let c = clone_json(&members[i].1);
                let entry = (members[i].0.clone(), c);
                proof {
                    lemma_members_data_push(out@, entry);
                    lemma_members_data_push(members@.take(i as int), members@[i as int]);
                    assert(members@.take(i + 1) =~= members@.take(i as int).push(members@[i as int]));
                }
                out.push(entry);
                i = i + 1;
            }
            assert(members@.take(members.len() as int) =~= members@);
            JsonValue::Object(out)
        },
    }
}

impl Clone for JsonValue {
    fn clone(&self) -> (r: Self)
        ensures
            r@ == self@,
    {
        clone_json(self)
    }
}

/// The key of an object member.
pub open spec fn member_key() -> spec_fn((Seq<char>, JsonData)) -> Seq<char> {
    |p: (Seq<char>, JsonData)| p.0
}

/// The value of the member `key` of an object with members `members`: the
/// first one with that key.
pub open spec fn member_value(members: Seq<(Seq<char>, JsonData)>, key: Seq<char>) -> Option<JsonData> {
    match lookup(members, member_key(), key) {
        Some(p) => Some(p.1),
        None => None,
    }
}

/// The contents of `members`, element by element.
pub proof fn lemma_members_data_index(members: Seq<(String, JsonValue)>)
    ensures
        members_data(members).len() == members.len(),
        forall|j: int|
            0 <= j < members.len() ==> #[trigger] members_data(members)[j] == (members[j].0@, json_data(members[j].1)),
    decreases members.len(),
{
    if members.len() > 0 {
        let rest = members.subrange(1, members.len() as int);
        lemma_members_data_index(rest);
        assert forall|j: int| 0 <= j < members.len() implies #[trigger] members_data(members)[j] == (
        members[j].0@, json_data(members[j].1)) by {
            if j > 0 {
                assert(members[j] == rest[j - 1]);
            }
        }
    }
}

/// The contents of `items`, element by element.
pub proof fn lemma_items_data_index(items: Seq<JsonValue>)
    ensures
        items_data(items).len() == items.len(),
        forall|j: int| 0 <= j < items.len() ==> #[trigger] items_data(items)[j] == json_data(items[j]),
    decreases items.len(),
{
    if items.len() > 0 {
        let rest = items.subrange(1, items.len() as int);
        lemma_items_data_index(rest);
        assert forall|j: int| 0 <= j < items.len() implies #[trigger] items_data(items)[j] == json_data(items[j]) by {
            if j > 0 {
                assert(items[j] == rest[j - 1]);
            }
        }
    }
}

/// Index of the member of `members` that `member_value` reads for `key`.
pub fn find_member(members: &Vec<(String, JsonValue)>, key: &Vec<char>) -> (r: Option<usize>)
    ensures
        match r {
            Some(k) => k < members.len() && member_value(members_data(members@), key@) == Some(members@[k as int].1@),
            None => member_value(members_data(members@), key@) is None,
        },
{
    let ghost s = members_data(members@);
    let ghost p = same_key(member_key(), key@);
    proof {
        lemma_members_data_index(members@);
    }
    let mut i: usize = 0;
    while i < members.len()
        invariant
            s == members_data(members@),
            s.len() == members.len(),
            forall|j: int| 0 <= j < members.len() ==> #[trigger] s[j] == (members@[j].0@, json_data(members@[j].1)),
            p == same_key(member_key(), key@),
            i <= members.len(),
            forall|j: int| 0 <= j < i ==> !p(#[trigger] s[j]),
        decreases members.len() - i,
    {
        if string_eq_chars(&members[i].0, key) {
            proof {
                assert(p(s[i as int]));
                lemma_first_match_at(s, p, i as int);
            }
            return Some(i);
        }
        proof {
            assert(!p(s[i as int]));
        }
        i = i + 1;
    }
    proof {
        lemma_first_match_none(s, p);
    }
    None
}

} // verus!
