//! A JSON document model used wherever the server's logic inspects JSON values.
use vstd::prelude::*;

use crate::text::str_eq;

verus! {

/// A JSON value. Numbers keep their textual form; objects keep their members
/// in order, with each key at most once.
#[derive(Debug)]
pub enum Json {
    Null,
    Bool(bool),
    Number(String),
    Str(String),
    Array(Vec<Json>),
    Object(Vec<(String, Json)>),
}

/// The mathematical value of a [`Json`] document.
pub enum JsonV {
    Null,
    Bool(bool),
    Number(Seq<char>),
    Str(Seq<char>),
    Array(Seq<JsonV>),
    Object(Seq<(Seq<char>, JsonV)>),
}

pub open spec fn items_view(items: Seq<Json>) -> Seq<JsonV>
    decreases items,
{
    if items.len() == 0 {
        Seq::empty()
    } else {
        items_view(items.drop_last()).push(items.last().view_json())
    }
}

pub open spec fn members_view(members: Seq<(String, Json)>) -> Seq<(Seq<char>, JsonV)>
    decreases members,
{
    if members.len() == 0 {
        Seq::empty()
    } else {
        members_view(members.drop_last()).push(
            (members.last().0@, members.last().1.view_json()),
        )
    }
}

impl Json {
    pub open spec fn view_json(&self) -> JsonV
        decreases self,
    {
        match self {
            Json::Null => JsonV::Null,
            Json::Bool(b) => JsonV::Bool(*b),
            Json::Number(n) => JsonV::Number(n@),
            Json::Str(s) => JsonV::Str(s@),
            Json::Array(items) => JsonV::Array(items_view(items@)),
            Json::Object(members) => JsonV::Object(members_view(members@)),
        }
    }
}


/// An item list and its value agree in length and element by element.
pub proof fn lemma_items_view_len(items: Seq<Json>)
    ensures
        items_view(items).len() == items.len(),
        forall|i: int| 0 <= i < items.len() ==> #[trigger] items_view(items)[i] == items[i].view_json(),
    decreases items.len(),
{
    if items.len() > 0 {
        lemma_items_view_len(items.drop_last());
    }
}

/// A member list and its value agree in length and member by member.
pub proof fn lemma_members_view_len(members: Seq<(String, Json)>)
    ensures
        members_view(members).len() == members.len(),
        forall|i: int| 0 <= i < members.len() ==> #[trigger] members_view(members)[i] == (members[i].0@, members[i].1.view_json()),
    decreases members.len(),
{
    if members.len() > 0 {
        lemma_members_view_len(members.drop_last());
    }
}

/// Two item lists have the same value when they agree element by element.
pub proof fn lemma_items_view_ext(a: Seq<Json>, b: Seq<Json>)
    requires
        a.len() == b.len(),
        forall|i: int| 0 <= i < a.len() ==> #[trigger] a[i].view_json() == b[i].view_json(),
    ensures
        items_view(a) == items_view(b),
{
    lemma_items_view_len(a);
    lemma_items_view_len(b);
    assert(items_view(a) =~= items_view(b));
}

/// Two member lists have the same value when they agree member by member.
pub proof fn lemma_members_view_ext(a: Seq<(String, Json)>, b: Seq<(String, Json)>)
    requires
        a.len() == b.len(),
        forall|i: int| 0 <= i < a.len() ==> (#[trigger] a[i]).0@ == b[i].0@ && a[i].1.view_json() == b[i].1.view_json(),
    ensures
        members_view(a) == members_view(b),
{
    lemma_members_view_len(a);
    lemma_members_view_len(b);
    assert(members_view(a) =~= members_view(b));
}

impl Json {
    /// A copy of this value.
    #[verifier::loop_isolation(false)]
    pub fn clone_json(&self) -> (r: Json)
        ensures
            r.view_json() == self.view_json(),
        decreases self,
    {
        match self {
            Json::Null => Json::Null,
            Json::Bool(b) => Json::Bool(*b),
            Json::Number(n) => Json::Number(n.clone()),
            Json::Str(s) => Json::Str(s.clone()),
            Json::Array(items) => {
                let mut out: Vec<Json> = Vec::new();
                let mut i: usize = 0;
                while i < items.len()
                    invariant
                        i <= items.len(),
                        out.len() == i,
                        forall|j: int| 0 <= j < i ==> #[trigger] out@[j].view_json() == items@[j].view_json(),
                    decreases items.len() - i,
                {
                    proof {
                        broadcast use vstd::std_specs::vec::axiom_vec_decreases_to_view;
                        assert(decreases_to!(*self => *items));
                        assert(decreases_to!(*items => items@));
                        assert(decreases_to!(items@ => items@[i as int]));
                        assert(decreases_to!(*self => items@[i as int]));
                    }
                    let c = items[i].clone_json();
                    out.push(c);
                    i += 1;
                }
                proof {
                    lemma_items_view_ext(out@, items@);
                }
                Json::Array(out)
            },
            Json::Object(members) => {
                let mut out: Vec<(String, Json)> = Vec::new();
                let mut i: usize = 0;
                while i < members.len()
                    invariant
                        i <= members.len(),
                        out.len() == i,
                        forall|j: int| 0 <= j < i ==> (#[trigger] out@[j]).0@ == members@[j].0@ && out@[j].1.view_json() == members@[j].1.view_json(),
                    decreases members.len() - i,
                {
                    proof {
                        broadcast use vstd::std_specs::vec::axiom_vec_decreases_to_view;
                        assert(decreases_to!(*self => *members));
                        assert(decreases_to!(*members => members@));
                        assert(decreases_to!(members@ => members@[i as int]));
                        assert(decreases_to!(members@[i as int] => members@[i as int].1));
                        assert(decreases_to!(*self => members@[i as int].1));
                    }
                    let c = members[i].1.clone_json();
                    out.push((members[i].0.clone(), c));
                    i += 1;
                }
                proof {
                    lemma_members_view_ext(out@, members@);
                }
                Json::Object(out)
            },
        }
    }
}

/// The first position at or after `i` whose member has the given key.
pub open spec fn key_index_from(members: Seq<(Seq<char>, JsonV)>, key: Seq<char>, i: int) -> Option<int>
    decreases members.len() - i,
{
    if i < 0 || i >= members.len() {
        None
    } else if members[i].0 == key {
        Some(i)
    } else {
        key_index_from(members, key, i + 1)
    }
}

/// The position of the member with the given key.
pub open spec fn key_index(members: Seq<(Seq<char>, JsonV)>, key: Seq<char>) -> Option<int> {
    key_index_from(members, key, 0)
}

/// The value that an object holds under `key`; nothing for a value that is no
/// object.
pub open spec fn json_get(value: JsonV, key: Seq<char>) -> Option<JsonV> {
    match value {
        JsonV::Object(members) => match key_index(members, key) {
            Some(i) => Some(members[i].1),
            None => None,
        },
        _ => None,
    }
}

/// A found member position lies in the list and holds the key.
pub proof fn lemma_key_index_in(members: Seq<(Seq<char>, JsonV)>, key: Seq<char>, i: int)
    requires
        0 <= i,
    ensures
        key_index_from(members, key, i) matches Some(j) ==> i <= j < members.len() && members[j].0 == key,
    decreases members.len() - i,
{
    if i < members.len() && members[i].0 != key {
        lemma_key_index_in(members, key, i + 1);
    }
}

/// Finds the position of the member with the given key.
pub fn member_index(members: &Vec<(String, Json)>, key: &str) -> (r: Option<usize>)
    ensures
        r is None <==> key_index(members_view(members@), key@) is None,
        r matches Some(i) ==> key_index(members_view(members@), key@) == Some(i as int),
{
    let ghost ms = members_view(members@);
    proof {
        lemma_members_view_len(members@);
    }
    let mut i: usize = 0;
    while i < members.len()
        invariant
            i <= members.len() == ms.len(),
            ms == members_view(members@),
            forall|k: int| 0 <= k < members.len() ==> #[trigger] ms[k] == (members@[k].0@, members@[k].1.view_json()),
            key_index(ms, key@) == key_index_from(ms, key@, i as int),
        decreases members.len() - i,
    {
        if str_eq(members[i].0.as_str(), key) {
            return Some(i);
        }
        i += 1;
    }
    None
}

/// The value that `value` holds under `key`, if it is an object that has one.
pub fn get_member<'a>(value: &'a Json, key: &str) -> (r: Option<&'a Json>)
    ensures
        match json_get(value.view_json(), key@) {
            Some(v) => r matches Some(x) && x.view_json() == v,
            None => r is None,
        },
{
    match value {
        Json::Object(members) => {
            proof {
                lemma_members_view_len(members@);
                lemma_key_index_in(members_view(members@), key@, 0);
            }
            assert(value.view_json() == JsonV::Object(members_view(members@)));
            match member_index(members, key) {
                Some(i) => {
                    assert(members_view(members@)[i as int].1 == members@[i as int].1.view_json());
                    Some(&members[i].1)
                },
                None => None,
            }
        },
        _ => None,
    }
}

} // verus!
