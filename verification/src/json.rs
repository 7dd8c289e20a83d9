//! JSON values and the reading of fields out of API responses.

use vstd::prelude::*;
use crate::text::{copy, opt_text, same};

verus! {

/// A JSON value. A number is kept where it is an integer that fits `i64`. The
/// keys of an object are distinct.
#[derive(Debug)]
pub enum Json {
    Null,
    Bool(bool),
    Number(Option<i64>),
    Text(String),
    Array(Vec<Json>),
    Object(Vec<(String, Json)>),
}

// ---------------------------------------------------------------- the model

/// The value of a member, by its key.
pub open spec fn lookup(members: Seq<(String, Json)>, key: Seq<char>) -> Option<Json>
    decreases members.len(),
{
    if members.len() == 0 {
        None
    } else if members[0].0@ == key {
        Some(members[0].1)
    } else {
        lookup(members.skip(1), key)
    }
}

/// A field of a value; nothing but an object has fields.
pub open spec fn field(value: Json, name: Seq<char>) -> Option<Json> {
    match value {
        Json::Object(members) => lookup(members@, name),
        _ => None,
    }
}

/// A field that is not null.
pub open spec fn solid_field(value: Json, name: Seq<char>) -> Option<Json> {
    match field(value, name) {
        Some(Json::Null) => None,
        found => found,
    }
}

/// The text of an optional value.
pub open spec fn text_in(value: Option<Json>) -> Option<Seq<char>> {
    match value {
        Some(Json::Text(text)) => Some(text@),
        _ => None,
    }
}

/// The text of a field.
pub open spec fn text_at(value: Json, name: Seq<char>) -> Option<Seq<char>> {
    text_in(field(value, name))
}

/// The text of a field, or a default.
pub open spec fn text_or(value: Json, name: Seq<char>, other: Seq<char>) -> Seq<char> {
    match text_at(value, name) {
        Some(text) => text,
        None => other,
    }
}

/// The text of a field of a field.
pub open spec fn inner_text(value: Json, outer: Seq<char>, name: Seq<char>) -> Option<Seq<char>> {
    match field(value, outer) {
        Some(found) => text_at(found, name),
        None => None,
    }
}

/// The integer of a field.
pub open spec fn integer_at(value: Json, name: Seq<char>) -> Option<int> {
    match field(value, name) {
        Some(Json::Number(Some(n))) => Some(n as int),
        _ => None,
    }
}

/// The integer of a field, or zero.
pub open spec fn count_at(value: Json, name: Seq<char>) -> int {
    match integer_at(value, name) {
        Some(n) => n,
        None => 0,
    }
}

/// The flag of a field, or false.
pub open spec fn flag_at(value: Json, name: Seq<char>) -> bool {
    field(value, name) matches Some(Json::Bool(flag)) && flag
}

/// The elements of an array field; none where the field is not an array.
pub open spec fn elements_at(value: Json, name: Seq<char>) -> Seq<Json> {
    match field(value, name) {
        Some(Json::Array(items)) => items@,
        _ => Seq::empty(),
    }
}

/// The nodes of a connection (`collection { nodes [...] }`).
pub open spec fn nodes_at(value: Json, collection: Seq<char>) -> Seq<Json> {
    match field(value, collection) {
        Some(connection) => elements_at(connection, "nodes"@),
        None => Seq::empty(),
    }
}

/// The items are the kept elements, one by one and in order.
pub open spec fn listed<T>(
    items: Seq<T>,
    elements: Seq<Json>,
    keep: spec_fn(Json) -> bool,
    stands_for: spec_fn(T, Json) -> bool,
) -> bool {
    &&& items.len() == elements.filter(keep).len()
    &&& forall|i: int|
        0 <= i < items.len() ==> #[trigger] stands_for(items[i], elements.filter(keep)[i])
}

/// An element that is not kept leaves the list as it is.
pub proof fn lemma_listed_skip<T>(
    items: Seq<T>,
    elements: Seq<Json>,
    element: Json,
    keep: spec_fn(Json) -> bool,
    stands_for: spec_fn(T, Json) -> bool,
)
    requires
        listed(items, elements, keep, stands_for),
        !keep(element),
    ensures
        listed(items, elements.push(element), keep, stands_for),
{
    reveal(Seq::filter);
    assert(elements.push(element).drop_last() =~= elements);
}

/// A kept element adds its item to the list.
pub proof fn lemma_listed_push<T>(
    items: Seq<T>,
    item: T,
    elements: Seq<Json>,
    element: Json,
    keep: spec_fn(Json) -> bool,
    stands_for: spec_fn(T, Json) -> bool,
)
    requires
        listed(items, elements, keep, stands_for),
        keep(element),
        stands_for(item, element),
    ensures
        listed(items.push(item), elements.push(element), keep, stands_for),
{
    reveal(Seq::filter);
    assert(elements.push(element).drop_last() =~= elements);
    let kept = elements.filter(keep);
    assert(elements.push(element).filter(keep) =~= kept.push(element));
    assert forall|i: int| 0 <= i < items.push(item).len() implies #[trigger] stands_for(
        items.push(item)[i],
        elements.push(element).filter(keep)[i],
    ) by {
        if i < items.len() {
            assert(stands_for(items[i], kept[i]));
        }
    }
}

/// No items stand for no elements.
pub proof fn lemma_listed_empty<T>(
    keep: spec_fn(Json) -> bool,
    stands_for: spec_fn(T, Json) -> bool,
)
    ensures
        listed(Seq::<T>::empty(), Seq::<Json>::empty(), keep, stands_for),
{
    reveal(Seq::filter);
}

// ---------------------------------------------------------------- reading

/// A field of a value.
pub fn get<'a>(value: &'a Json, name: &str) -> (found: Option<&'a Json>)
    ensures
        match found {
            Some(found) => field(*value, name@) == Some(*found),
            None => field(*value, name@) is None,
        },
{
    match value {
        Json::Object(members) => {
            let mut i: usize = 0;
            assert(members@.skip(0) =~= members@);
            while i < members.len()
                invariant
                    i <= members.len(),
                    field(*value, name@) == lookup(members@.skip(i as int), name@),
                decreases members.len() - i,
            {
                assert(members@.skip(i as int)[0] == members@[i as int]);
                assert(members@.skip(i as int).skip(1) =~= members@.skip(i + 1));
                if same(members[i].0.as_str(), name) {
                    return Some(&members[i].1);
                }
                i = i + 1;
            }
            None
        },
        _ => None,
    }
}

/// A field that is there and not null.
pub fn get_solid<'a>(value: &'a Json, name: &str) -> (found: Option<&'a Json>)
    ensures
        match found {
            Some(found) => solid_field(*value, name@) == Some(*found),
            None => solid_field(*value, name@) is None,
        },
{
    match get(value, name) {
        Some(Json::Null) => None,
        found => found,
    }
}

/// The text of a field.
pub fn string_field(value: &Json, name: &str) -> (text: Option<String>)
    ensures
        opt_text(text) == text_at(*value, name@),
{
    match get(value, name) {
        Some(Json::Text(text)) => Some(copy(text.as_str())),
        _ => None,
    }
}

/// The text of a field, or a default.
pub fn string_or(value: &Json, name: &str, other: &str) -> (text: String)
    ensures
        text@ == text_or(*value, name@, other@),
{
    match string_field(value, name) {
        Some(text) => text,
        None => copy(other),
    }
}

/// The text of a field of a field.
pub fn inner_string(value: &Json, outer: &str, name: &str) -> (text: Option<String>)
    ensures
        opt_text(text) == inner_text(*value, outer@, name@),
{
    match get(value, outer) {
        Some(found) => string_field(found, name),
        None => None,
    }
}

/// The integer of a field.
pub fn integer(value: &Json, name: &str) -> (n: Option<i64>)
    ensures
        match n {
            Some(n) => integer_at(*value, name@) == Some(n as int),
            None => integer_at(*value, name@) is None,
        },
{
    match get(value, name) {
        Some(Json::Number(n)) => *n,
        _ => None,
    }
}

/// The integer of a field, or zero.
pub fn integer_field(value: &Json, name: &str) -> (n: i64)
    ensures
        n == count_at(*value, name@),
{
    match integer(value, name) {
        Some(n) => n,
        None => 0,
    }
}

/// The flag of a field, or false.
pub fn flag_field(value: &Json, name: &str) -> (flag: bool)
    ensures
        flag == flag_at(*value, name@),
{
    match get(value, name) {
        Some(Json::Bool(flag)) => *flag,
        _ => false,
    }
}

/// The elements of an array field.
pub fn elements<'a>(value: &'a Json, name: &str) -> (items: Option<&'a Vec<Json>>)
    ensures
        match items {
            Some(items) => elements_at(*value, name@) == items@,
            None => elements_at(*value, name@) == Seq::<Json>::empty(),
        },
{
    match get(value, name) {
        Some(Json::Array(items)) => Some(items),
        _ => None,
    }
}

/// The nodes of a connection.
pub fn nodes<'a>(value: &'a Json, collection: &str) -> (items: Option<&'a Vec<Json>>)
    ensures
        match items {
            Some(items) => nodes_at(*value, collection@) == items@,
            None => nodes_at(*value, collection@) == Seq::<Json>::empty(),
        },
{
    match get(value, collection) {
        Some(connection) => elements(connection, "nodes"),
        None => None,
    }
}

} // verus!
