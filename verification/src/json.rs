use crate::text::text_of;
use vstd::prelude::*;
use vstd::string::StringExecFns;

verus! {

/// A JSON document as a mathematical tree.
pub enum JsonTree {
    Null,
    Bool(bool),
    /// A number; `Some` when it is an integer that fits in 64 signed bits.
    Number(Option<int>),
    Text(Seq<char>),
    Array(Seq<JsonTree>),
    /// Members in document order.
    Object(Seq<(Seq<char>, JsonTree)>),
}

/// A JSON document held in memory.
pub enum JsonValue {
    Null,
    Bool(bool),
    Number(Option<i64>),
    Text(String),
    Array(Vec<JsonValue>),
    Object(Vec<(String, JsonValue)>),
}

/// The tree that a value in memory stands for.
pub open spec fn tree_of(value: JsonValue) -> JsonTree
    decreases value,
{
    match value {
        JsonValue::Null => JsonTree::Null,
        JsonValue::Bool(b) => JsonTree::Bool(b),
        JsonValue::Number(n) => JsonTree::Number(
            match n {
                Some(n) => Some(n as int),
                None => None,
            },
        ),
        JsonValue::Text(s) => JsonTree::Text(s@),
        JsonValue::Array(items) => JsonTree::Array(
            Seq::new(
                items@.len(),
                |i: int|
                    if 0 <= i < items@.len() {
                        tree_of(items@[i])
                    } else {
                        JsonTree::Null
                    },
            ),
        ),
        JsonValue::Object(members) => JsonTree::Object(
            Seq::new(
                members@.len(),
                |i: int|
                    if 0 <= i < members@.len() {
                        (members@[i].0@, tree_of(members@[i].1))
                    } else {
                        (Seq::<char>::empty(), JsonTree::Null)
                    },
            ),
        ),
    }
}

impl View for JsonValue {
    type V = JsonTree;

    open spec fn view(&self) -> JsonTree {
        tree_of(*self)
    }
}

/// The member of an object that is found for `key`: the first one in
/// document order.
pub open spec fn member(members: Seq<(Seq<char>, JsonTree)>, key: Seq<char>) -> Option<JsonTree>
    decreases members.len(),
{
    if members.len() == 0 {
        None
    } else if members[0].0 == key {
        Some(members[0].1)
    } else {
        member(members.drop_first(), key)
    }
}

/// The views of an object's members, in order.
pub open spec fn members_view(members: Seq<(String, JsonValue)>) -> Seq<(Seq<char>, JsonTree)> {
    Seq::new(members.len(), |i: int| (members[i].0@, members[i].1@))
}

/// The views of an array's items, in order.
pub open spec fn items_view(items: Seq<JsonValue>) -> Seq<JsonTree> {
    Seq::new(items.len(), |i: int| items[i]@)
}

/// The view of an object is the object of its members' views.
pub proof fn lemma_object_view(value: JsonValue)
    requires
        value is Object,
    ensures
        value@ == JsonTree::Object(members_view(value->Object_0@)),
{
    match value {
        JsonValue::Object(members) => {
            assert(value@ is Object);
            assert(value@->Object_0.len() == members@.len());
            assert(value@->Object_0 =~= members_view(members@));
        },
        _ => {},
    }
}

/// The view of an array is the array of its items' views.
pub proof fn lemma_array_view(value: JsonValue)
    requires
        value is Array,
    ensures
        value@ == JsonTree::Array(items_view(value->Array_0@)),
{
    match value {
        JsonValue::Array(items) => {
            assert(value@ is Array);
            assert(value@->Array_0.len() == items@.len());
            assert(value@->Array_0 =~= items_view(items@));
        },
        _ => {},
    }
}

/// The member of `members` stored under `key`, if there is one.
pub fn find_member<'a>(members: &'a Vec<(String, JsonValue)>, key: &str) -> (found: Option<
    &'a JsonValue,
>)
    ensures
        match found {
            Some(value) => member(members_view(members@), key@) == Some(value@),
            None => member(members_view(members@), key@) is None,
        },
{
    let wanted = String::from_str(key);
    let ghost all = members_view(members@);
    let mut i: usize = 0;
    assert(all.skip(0) =~= all);
    while i < members.len()
        invariant
            i <= members.len(),
            wanted@ == key@,
            all == members_view(members@),
            member(all, key@) == member(all.skip(i as int), key@),
        decreases members.len() - i,
    {
        let ghost rest = all.skip(i as int);
        assert(rest[0] == all[i as int]);
        assert(rest.drop_first() =~= all.skip(i + 1));
        if members[i].0 == wanted {
            return Some(&members[i].1);
        }
        i += 1;
    }
    assert(all.skip(i as int).len() == 0);
    None
}

/// The first JSON value that `serde_json` reads from the start of `text`,
/// or `None` where it reads none.
pub uninterp spec fn json_leading_value(text: Seq<char>) -> Option<JsonTree>;

/// The compact JSON text that `serde_json` writes for `tree`, or `None`
/// where it refuses to write it.
pub uninterp spec fn json_text(tree: JsonTree) -> Option<Seq<char>>;

/// The tree of an optional value.
pub open spec fn view_of(v: Option<JsonValue>) -> Option<JsonTree> {
    match v {
        Some(v) => Some(v@),
        None => None,
    }
}

/// `serde_json::Value`. It only passes between the four functions below;
/// nothing is claimed of what it holds.
#[verifier::external_type_specification]
#[verifier::external_body]
pub struct ExJsonDocument(serde_json::Value);

/// Copies a `serde_json::Value` into a `JsonValue`, variant by variant. A
/// number is taken through `serde_json::Number::as_i64`, an object through
/// `serde_json::Map::iter`, which gives the members in the order in which
/// they were first read. It has no contract: nothing is claimed of the copy.
#[verifier::external_body]
fn from_outside(v: &serde_json::Value) -> JsonValue {
    match v {
        serde_json::Value::Null => JsonValue::Null,
        serde_json::Value::Bool(b) => JsonValue::Bool(*b),
        serde_json::Value::Number(n) => JsonValue::Number(n.as_i64()),
        serde_json::Value::String(s) => JsonValue::Text(s.clone()),
        serde_json::Value::Array(a) => JsonValue::Array(a.iter().map(from_outside).collect()),
        serde_json::Value::Object(m) => JsonValue::Object(
            m.iter().map(|(k, x)| (k.clone(), from_outside(x))).collect(),
        ),
    }
}

/// Reads one JSON value from the start of `text` with
/// `serde_json::Deserializer::from_str(text).into_iter().next()`. What
/// follows the value in `text` is left unread. The claim is that the
/// outcome depends on `text` alone, which is why `json_leading_value` can
/// name it; nothing is claimed of what the outcome is.
#[verifier::external_body]
pub(crate) fn parse_leading(text: &str) -> (r: Option<JsonValue>)
    ensures
        view_of(r) == json_leading_value(text@),
{
    match serde_json::Deserializer::from_str(text).into_iter::<serde_json::Value>().next() {
        Some(Ok(v)) => Some(from_outside(&v)),
        _ => None,
    }
}

/// Copies a `JsonValue` into a `serde_json::Value`, variant by variant. A
/// number goes through `serde_json::Value::from`, which turns a missing
/// integer into `null`; an object is collected into a `serde_json::Map`,
/// which keeps the order of the members. It has no contract: nothing is
/// claimed of the copy.
#[verifier::external_body]
fn to_outside(v: &JsonValue) -> serde_json::Value {
    match v {
        JsonValue::Null => serde_json::Value::Null,
        JsonValue::Bool(b) => serde_json::Value::Bool(*b),
        JsonValue::Number(n) => serde_json::Value::from(*n),
        JsonValue::Text(s) => serde_json::Value::String(s.clone()),
        JsonValue::Array(a) => serde_json::Value::Array(a.iter().map(to_outside).collect()),
        JsonValue::Object(m) => serde_json::Value::Object(
            m.iter().map(|e| (e.0.clone(), to_outside(&e.1))).collect(),
        ),
    }
}

/// Writes `value` as compact JSON with `serde_json::to_string`. The claim
/// is that the outcome depends on the tree of `value` alone, which is why
/// `json_text` can name it; nothing is claimed of what the text is.
#[verifier::external_body]
pub(crate) fn render(value: &JsonValue) -> (r: Option<String>)
    ensures
        text_of(r) == json_text(value@),
{
    serde_json::to_string(&to_outside(value)).ok()
}

} // verus!
