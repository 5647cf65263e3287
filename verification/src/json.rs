//! JSON values as the language-server protocol carries them.
//!
//! Objects keep their members in order, each key once. Numbers are
//! integers, or other numbers held by their shortest text.

use vstd::prelude::*;
use crate::text::str_eq;

verus! {

/// A JSON number.
#[derive(Debug, Clone)]
pub enum JsonNumber {
    /// A non-negative integer.
    PosInt(u64),
    /// A negative integer.
    NegInt(i64),
    /// Any other number, by its text.
    Float(String),
}

/// A JSON value.
#[derive(Debug)]
pub enum Json {
    Null,
    Bool(bool),
    Number(JsonNumber),
    Str(String),
    Array(Vec<Json>),
    Object(Vec<Member>),
}

/// A member of a JSON object.
#[derive(Debug)]
pub struct Member {
    pub key: String,
    pub value: Json,
}

/// The value of the first member called `key`.
pub open spec fn obj_get(members: Seq<Member>, key: Seq<char>) -> Option<Json>
    decreases members.len(),
{
    if members.len() == 0 {
        None
    } else if members[0].key@ == key {
        Some(members[0].value)
    } else {
        obj_get(members.drop_first(), key)
    }
}

/// `Value::get` of a key: a member of an object, nothing for other values.
pub open spec fn get_key(v: Option<Json>, key: Seq<char>) -> Option<Json> {
    match v {
        Some(Json::Object(m)) => obj_get(m@, key),
        _ => None,
    }
}

/// `Value::as_str`.
pub open spec fn as_text(v: Option<Json>) -> Option<Seq<char>> {
    match v {
        Some(Json::Str(s)) => Some(s@),
        _ => None,
    }
}

/// `Value::as_u64`.
pub open spec fn as_u64(v: Option<Json>) -> Option<u64> {
    match v {
        Some(Json::Number(JsonNumber::PosInt(n))) => Some(n),
        _ => None,
    }
}

/// Position of the first member called `key`.
pub fn find_member(members: &Vec<Member>, key: &str) -> (r: Option<usize>)
    ensures
        match r {
            Some(i) => i < members@.len() && members@[i as int].key@ == key@
                && obj_get(members@, key@) == Some(members@[i as int].value)
                && forall|j: int| 0 <= j < i ==> members@[j].key@ != key@,
            None => obj_get(members@, key@) is None,
        },
{
    let mut i: usize = 0;
    assert(members@.skip(0) == members@);
    while i < members.len()
        invariant
            i <= members.len(),
            obj_get(members@, key@) == obj_get(members@.skip(i as int), key@),
            forall|j: int| 0 <= j < i ==> members@[j].key@ != key@,
        decreases members.len() - i,
    {
        assert(members@.skip(i as int)[0] == members@[i as int]);
        assert(members@.skip(i as int).drop_first() == members@.skip(i + 1));
        if str_eq(members[i].key.as_str(), key) {
            return Some(i);
        }
        i += 1;
    }
    assert(members@.skip(members.len() as int) =~= Seq::<Member>::empty());
    None
}

/// The value of the first member called `key`.
pub fn member<'a>(members: &'a Vec<Member>, key: &str) -> (r: Option<&'a Json>)
    ensures
        match r {
            Some(v) => obj_get(members@, key@) == Some(*v),
            None => obj_get(members@, key@) is None,
        },
{
    match find_member(members, key) {
        Some(i) => Some(&members[i].value),
        None => None,
    }
}

/// `Value::get` of a key.
pub fn get<'a>(v: Option<&'a Json>, key: &str) -> (r: Option<&'a Json>)
    ensures
        match r {
            Some(x) => get_key(match v { Some(j) => Some(*j), None => None }, key@) == Some(*x),
            None => get_key(match v { Some(j) => Some(*j), None => None }, key@) is None,
        },
{
    match v {
        Some(Json::Object(m)) => member(m, key),
        _ => None,
    }
}

/// `Value::as_str`.
pub fn text<'a>(v: Option<&'a Json>) -> (r: Option<&'a String>)
    ensures
        match r {
            Some(s) => as_text(match v { Some(j) => Some(*j), None => None }) == Some(s@),
            None => as_text(match v { Some(j) => Some(*j), None => None }) is None,
        },
{
    match v {
        Some(Json::Str(s)) => Some(s),
        _ => None,
    }
}

/// Whether two numbers are equal: integers by value, other numbers by text.
pub open spec fn number_same(a: JsonNumber, b: JsonNumber) -> bool {
    match (a, b) {
        (JsonNumber::PosInt(x), JsonNumber::PosInt(y)) => x == y,
        (JsonNumber::NegInt(x), JsonNumber::NegInt(y)) => x == y,
        (JsonNumber::Float(x), JsonNumber::Float(y)) => x@ == y@,
        _ => false,
    }
}

/// Whether two values are equal as JSON: same kind, equal scalars, and
/// equal elements or members in the same order.
pub open spec fn json_same(a: Json, b: Json) -> bool
    decreases a, 1int,
{
    match a {
        Json::Null => b is Null,
        Json::Bool(x) => b matches Json::Bool(y) && x == y,
        Json::Number(x) => b matches Json::Number(y) && number_same(x, y),
        Json::Str(x) => b matches Json::Str(y) && x@ == y@,
        Json::Array(x) => match b {
            Json::Array(y) => items_same(x@, y@),
            _ => false,
        },
        Json::Object(x) => match b {
            Json::Object(y) => members_same(x@, y@),
            _ => false,
        },
    }
}

/// Elementwise `json_same`.
pub open spec fn items_same(x: Seq<Json>, y: Seq<Json>) -> bool
    decreases x, 0int,
{
    if x.len() != y.len() {
        false
    } else if x.len() == 0 {
        true
    } else {
        items_same(x.drop_last(), y.drop_last()) && json_same(x.last(), y.last())
    }
}

/// Memberwise equality: same keys and `json_same` values, in order.
pub open spec fn members_same(x: Seq<Member>, y: Seq<Member>) -> bool
    decreases x, 0int,
{
    if x.len() != y.len() {
        false
    } else if x.len() == 0 {
        true
    } else {
        members_same(x.drop_last(), y.drop_last()) && x.last().key@ == y.last().key@ && json_same(x.last().value, y.last().value)
    }
}

fn number_eq(a: &JsonNumber, b: &JsonNumber) -> (r: bool)
    ensures
        r == number_same(*a, *b),
{
    match (a, b) {
        (JsonNumber::PosInt(x), JsonNumber::PosInt(y)) => *x == *y,
        (JsonNumber::NegInt(x), JsonNumber::NegInt(y)) => *x == *y,
        (JsonNumber::Float(x), JsonNumber::Float(y)) => str_eq(x.as_str(), y.as_str()),
        _ => false,
    }
}

/// Equality of JSON values, as `serde_json::Value`'s `==` compares them.
pub fn json_eq(a: &Json, b: &Json) -> (r: bool)
    ensures
        r == json_same(*a, *b),
    decreases *a, 1int,
{
    match a {
        Json::Null => match b {
            Json::Null => true,
            _ => false,
        },
        Json::Bool(x) => match b {
            Json::Bool(y) => *x == *y,
            _ => false,
        },
        Json::Number(x) => match b {
            Json::Number(y) => number_eq(x, y),
            _ => false,
        },
        Json::Str(x) => match b {
            Json::Str(y) => str_eq(x.as_str(), y.as_str()),
            _ => false,
        },
        Json::Array(x) => match b {
            Json::Array(y) => items_eq(x, y),
            _ => false,
        },
        Json::Object(x) => match b {
            Json::Object(y) => members_eq(x, y),
            _ => false,
        },
    }
}

fn items_eq(x: &Vec<Json>, y: &Vec<Json>) -> (r: bool)
    ensures
        r == items_same(x@, y@),
    decreases x@, 0int,
{
    if x.len() != y.len() {
        return false;
    }
    let mut i: usize = 0;
    assert(x@.take(0) =~= Seq::<Json>::empty());
    assert(y@.take(0) =~= Seq::<Json>::empty());
    while i < x.len()
        invariant
            i <= x.len(),
            x.len() == y.len(),
            items_same(x@.take(i as int), y@.take(i as int)),
        decreases x.len() - i,
    {
        assert(x@.take(i + 1).drop_last() == x@.take(i as int));
        assert(y@.take(i + 1).drop_last() == y@.take(i as int));
        assert(x@.take(i + 1).last() == x@[i as int]);
        assert(y@.take(i + 1).last() == y@[i as int]);
        proof {
            assert(decreases_to!(x@ => x@[i as int]));
        }
        if !json_eq(&x[i], &y[i]) {
            proof {
                lemma_items_prefix(x@, y@, i as int + 1);
            }
            return false;
        }
        i += 1;
    }
    assert(x@.take(x.len() as int) == x@);
    assert(y@.take(y.len() as int) == y@);
    true
}

/// A mismatch within the first `k` elements is a mismatch of all.
proof fn lemma_items_prefix(x: Seq<Json>, y: Seq<Json>, k: int)
    requires
        x.len() == y.len(),
        0 <= k <= x.len(),
        !items_same(x.take(k), y.take(k)),
    ensures
        !items_same(x, y),
    decreases x.len() - k,
{
    if k == x.len() {
        assert(x.take(k) == x);
        assert(y.take(k) == y);
    } else {
        assert(x.take(k + 1).drop_last() == x.take(k));
        assert(y.take(k + 1).drop_last() == y.take(k));
        lemma_items_prefix(x, y, k + 1);
    }
}

fn members_eq(x: &Vec<Member>, y: &Vec<Member>) -> (r: bool)
    ensures
        r == members_same(x@, y@),
    decreases x@, 0int,
{
    if x.len() != y.len() {
        return false;
    }
    let mut i: usize = 0;
    assert(x@.take(0) =~= Seq::<Member>::empty());
    assert(y@.take(0) =~= Seq::<Member>::empty());
    while i < x.len()
        invariant
            i <= x.len(),
            x.len() == y.len(),
            members_same(x@.take(i as int), y@.take(i as int)),
        decreases x.len() - i,
    {
        assert(x@.take(i + 1).drop_last() == x@.take(i as int));
        assert(y@.take(i + 1).drop_last() == y@.take(i as int));
        assert(x@.take(i + 1).last() == x@[i as int]);
        assert(y@.take(i + 1).last() == y@[i as int]);
        proof {
            assert(decreases_to!(x@ => x@[i as int].value));
        }
        if !str_eq(x[i].key.as_str(), y[i].key.as_str()) || !json_eq(&x[i].value, &y[i].value) {
            proof {
                lemma_members_prefix(x@, y@, i as int + 1);
            }
            return false;
        }
        i += 1;
    }
    assert(x@.take(x.len() as int) == x@);
    assert(y@.take(y.len() as int) == y@);
    true
}

/// A mismatch within the first `k` members is a mismatch of all.
proof fn lemma_members_prefix(x: Seq<Member>, y: Seq<Member>, k: int)
    requires
        x.len() == y.len(),
        0 <= k <= x.len(),
        !members_same(x.take(k), y.take(k)),
    ensures
        !members_same(x, y),
    decreases x.len() - k,
{
    if k == x.len() {
        assert(x.take(k) == x);
        assert(y.take(k) == y);
    } else {
        assert(x.take(k + 1).drop_last() == x.take(k));
        assert(y.take(k + 1).drop_last() == y.take(k));
        lemma_members_prefix(x, y, k + 1);
    }
}

} // verus!
