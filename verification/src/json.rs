//! JSON values of `serde_json`, seen as a mathematical tree.
//!
//! The functions here that carry `external_body` each make one call into
//! `serde_json`, built with its default features: an object is then kept
//! sorted by key, and a number is an integer or a finite float.
use vstd::prelude::*;

verus! {

/// `serde_json::Value`, of which nothing is known but what `json_of` names.
#[verifier::external_type_specification]
#[verifier::external_body]
pub struct ExJsonValue(serde_json::Value);

/// `serde_json::Map`, of which nothing is known but what `members_of` names.
#[verifier::external_type_specification]
#[verifier::external_body]
#[verifier::reject_recursive_types(K)]
#[verifier::reject_recursive_types(V)]
pub struct ExJsonMap<K, V>(serde_json::Map<K, V>);

/// The members of a JSON object.
pub type JsonMap = serde_json::Map<String, serde_json::Value>;

/// What a JSON value is.
#[verifier::ext_equal]
pub enum JsonView {
    Null,
    Bool(bool),
    /// An integer.
    Whole(int),
    /// A float, by its IEEE 754 bits.
    Real(u64),
    Text(Seq<char>),
    Array(Seq<JsonView>),
    Object(Map<Seq<char>, JsonView>),
}

/// What a `serde_json::Value` holds.
pub uninterp spec fn json_of(value: serde_json::Value) -> JsonView;

/// What a `serde_json::Map` holds, by key.
pub uninterp spec fn members_of(map: JsonMap) -> Map<Seq<char>, JsonView>;

/// What a row of values holds.
pub open spec fn items_of(items: Seq<serde_json::Value>) -> Seq<JsonView> {
    items.map_values(|item: serde_json::Value| json_of(item))
}

/// The member `key` of an object, if the value is an object that has it.
pub open spec fn member(value: JsonView, key: Seq<char>) -> Option<JsonView> {
    match value {
        JsonView::Object(members) => field(members, key),
        _ => None,
    }
}

/// The member `key`, if there is one.
pub open spec fn field(members: Map<Seq<char>, JsonView>, key: Seq<char>) -> Option<JsonView> {
    if members.contains_key(key) {
        Some(members[key])
    } else {
        None
    }
}

/// The bits of the two floats that are zero.
pub open spec fn zero_bits(bits: u64) -> bool {
    bits == 0 || bits == 0x8000_0000_0000_0000
}

/// Whether two values compare equal: the two zero floats do, and otherwise
/// only what is the same.
pub open spec fn json_same(a: JsonView, b: JsonView) -> bool
    decreases a,
{
    match (a, b) {
        (JsonView::Null, JsonView::Null) => true,
        (JsonView::Bool(x), JsonView::Bool(y)) => x == y,
        (JsonView::Whole(x), JsonView::Whole(y)) => x == y,
        (JsonView::Real(x), JsonView::Real(y)) => x == y || (zero_bits(x) && zero_bits(y)),
        (JsonView::Text(x), JsonView::Text(y)) => x == y,
        (JsonView::Array(x), JsonView::Array(y)) => x.len() == y.len() && forall|i: int|
            0 <= i < x.len() ==> json_same(#[trigger] x[i], y[i]),
        (JsonView::Object(x), JsonView::Object(y)) => x.dom() == y.dom() && forall|k: Seq<char>|
            x.contains_key(k) ==> json_same(#[trigger] x[k], y[k]),
        _ => false,
    }
}

/// Every value compares equal to itself.
pub proof fn json_same_reflexive(a: JsonView)
    ensures
        json_same(a, a),
    decreases a,
{
    match a {
        JsonView::Array(x) => {
            assert forall|i: int| 0 <= i < x.len() implies json_same(#[trigger] x[i], x[i]) by {
                json_same_reflexive(x[i]);
            }
        },
        JsonView::Object(x) => {
            assert forall|k: Seq<char>| x.contains_key(k) implies json_same(#[trigger] x[k], x[k]) by {
                json_same_reflexive(x[k]);
            }
        },
        _ => {},
    }
}

/// Comparing equal goes both ways.
pub proof fn json_same_symmetric(a: JsonView, b: JsonView)
    requires
        json_same(a, b),
    ensures
        json_same(b, a),
    decreases a,
{
    match (a, b) {
        (JsonView::Array(x), JsonView::Array(y)) => {
            assert forall|i: int| 0 <= i < y.len() implies json_same(#[trigger] y[i], x[i]) by {
                json_same_symmetric(x[i], y[i]);
            }
        },
        (JsonView::Object(x), JsonView::Object(y)) => {
            assert forall|k: Seq<char>| y.contains_key(k) implies json_same(#[trigger] y[k], x[k]) by {
                assert(x.dom().contains(k));
                json_same_symmetric(x[k], y[k]);
            }
        },
        _ => {},
    }
}

/// What compares equal to the same value compares equal.
pub proof fn json_same_transitive(a: JsonView, b: JsonView, c: JsonView)
    requires
        json_same(a, b),
        json_same(b, c),
    ensures
        json_same(a, c),
    decreases a,
{
    match (a, b, c) {
        (JsonView::Array(x), JsonView::Array(y), JsonView::Array(z)) => {
            assert forall|i: int| 0 <= i < x.len() implies json_same(#[trigger] x[i], z[i]) by {
                assert(json_same(y[i], z[i]));
                json_same_transitive(x[i], y[i], z[i]);
            }
        },
        (JsonView::Object(x), JsonView::Object(y), JsonView::Object(z)) => {
            assert forall|k: Seq<char>| x.contains_key(k) implies json_same(#[trigger] x[k], z[k]) by {
                assert(y.dom().contains(k));
                assert(json_same(y[k], z[k]));
                json_same_transitive(x[k], y[k], z[k]);
            }
        },
        _ => {},
    }
}

/// Whether `a` stands before `b` in the order of their code points.
pub open spec fn text_before(a: Seq<char>, b: Seq<char>) -> bool
    decreases a.len(),
{
    if b.len() == 0 {
        false
    } else if a.len() == 0 {
        true
    } else if a[0] == b[0] {
        text_before(a.skip(1), b.skip(1))
    } else {
        a[0] < b[0]
    }
}

/// Whether `rows` lists the members of an object in the order of their keys.
pub open spec fn lists(
    rows: Seq<(Seq<char>, JsonView)>,
    members: Map<Seq<char>, JsonView>,
) -> bool {
    &&& forall|i: int|
        0 <= i < rows.len() ==> #[trigger] members.contains_key(rows[i].0) && members[rows[i].0]
            == rows[i].1
    &&& forall|k: Seq<char>| #[trigger]
        members.contains_key(k) ==> exists|i: int| 0 <= i < rows.len() && #[trigger] rows[i].0 == k
    &&& forall|i: int, j: int|
        0 <= i < j < rows.len() ==> text_before(#[trigger] rows[i].0, #[trigger] rows[j].0)
}

/// What a row of members holds.
pub open spec fn rows_of(rows: Seq<(String, serde_json::Value)>) -> Seq<(Seq<char>, JsonView)> {
    rows.map_values(|row: (String, serde_json::Value)| (row.0@, json_of(row.1)))
}

/// The members of an empty object.
pub open spec fn no_fields() -> Map<Seq<char>, JsonView> {
    Map::empty()
}

/// What a value or an error text holds.
pub open spec fn value_result(r: Result<serde_json::Value, String>) -> Result<
    JsonView,
    Seq<char>,
> {
    match r {
        Ok(value) => Ok(json_of(value)),
        Err(error) => Err(error@),
    }
}

/// What the members of an object or an error text hold.
pub open spec fn members_result(r: Result<JsonMap, String>) -> Result<
    Map<Seq<char>, JsonView>,
    Seq<char>,
> {
    match r {
        Ok(members) => Ok(members_of(members)),
        Err(error) => Err(error@),
    }
}

/// What bytes or an error text hold.
pub open spec fn bytes_result(r: Result<Vec<u8>, String>) -> Result<Seq<u8>, Seq<char>> {
    match r {
        Ok(bytes) => Ok(bytes@),
        Err(error) => Err(error@),
    }
}

/// How many arrays and objects can stand inside each other in text that is
/// read.
pub const MAX_NESTING: u64 = 127;

/// Whether at most so many arrays and objects stand inside each other.
pub open spec fn shallow(value: JsonView, depth: nat) -> bool
    decreases depth,
{
    match value {
        JsonView::Array(items) => depth > 0 && forall|i: int|
            0 <= i < items.len() ==> shallow(#[trigger] items[i], (depth - 1) as nat),
        JsonView::Object(members) => depth > 0 && forall|k: Seq<char>|
            members.contains_key(k) ==> shallow(#[trigger] members[k], (depth - 1) as nat),
        _ => true,
    }
}

/// Whether no float stands in a value.
pub open spec fn floatless(value: JsonView) -> bool
    decreases value,
{
    match value {
        JsonView::Real(_) => false,
        JsonView::Array(items) => forall|i: int|
            0 <= i < items.len() ==> floatless(#[trigger] items[i]),
        JsonView::Object(members) => forall|k: Seq<char>|
            members.contains_key(k) ==> floatless(#[trigger] members[k]),
        _ => true,
    }
}

/// What JSON text reads as, or why it does not: the result of
/// `serde_json::from_slice` into a `serde_json::Value`.
pub uninterp spec fn json_read(bytes: Seq<u8>) -> Result<JsonView, Seq<char>>;

/// What JSON text reads as where an object is asked for: the result of
/// `serde_json::from_slice` into a `serde_json::Map`.
pub uninterp spec fn object_read(bytes: Seq<u8>) -> Result<Map<Seq<char>, JsonView>, Seq<char>>;

/// The compact text of a value, or why there is none: the result of
/// `serde_json::to_vec`.
pub uninterp spec fn json_written(value: JsonView) -> Result<Seq<u8>, Seq<char>>;

/// `serde_json::from_slice` into a value: its result is a function of the
/// bytes alone, here under the name `json_read`; an error is given by its text.
/// Text in which more arrays and objects stand inside each other than its
/// recursion limit allows is an error.
#[verifier::external_body]
pub(crate) fn read_json(bytes: &[u8]) -> (r: Result<serde_json::Value, String>)
    ensures
        value_result(r) == json_read(bytes@),
        r matches Ok(value) ==> shallow(json_of(value), MAX_NESTING as nat),
{
    serde_json::from_slice(bytes).map_err(|error| error.to_string())
}

/// `serde_json::from_slice` into the members of an object: its result is a
/// function of the bytes alone, here under the name `object_read`; an error is
/// given by its text.
#[verifier::external_body]
pub(crate) fn read_object(bytes: &[u8]) -> (r: Result<JsonMap, String>)
    ensures
        members_result(r) == object_read(bytes@),
{
    serde_json::from_slice(bytes).map_err(|error| error.to_string())
}

/// `serde_json::to_vec`: its result is a function of the value alone, here
/// under the name `json_written`; an error is given by its text. The compact
/// form puts no white space between its parts and escapes control characters
/// inside strings, so no line break stands in it. `serde_json::from_slice` reads
/// the value back from it, where its recursion limit allows the nesting. Nothing
/// is said of a value with a float: reading one may be off in its last bit.
#[verifier::external_body]
pub(crate) fn write_json(value: &serde_json::Value) -> (r: Result<Vec<u8>, String>)
    ensures
        bytes_result(r) == json_written(json_of(*value)),
        r matches Ok(bytes) ==> forall|i: int|
            0 <= i < bytes@.len() ==> #[trigger] bytes@[i] != 10 && bytes@[i] != 13,
        r matches Ok(bytes) ==> (floatless(json_of(*value)) && shallow(
            json_of(*value),
            MAX_NESTING as nat,
        ) ==> json_read(bytes@) == Ok::<JsonView, Seq<char>>(json_of(*value))),
{
    serde_json::to_vec(value).map_err(|error| error.to_string())
}

/// `serde_json::Value::Null`.
#[verifier::external_body]
pub(crate) fn json_null() -> (r: serde_json::Value)
    ensures
        json_of(r) == JsonView::Null,
{
    serde_json::Value::Null
}

/// `serde_json::Value::Bool`.
#[verifier::external_body]
pub(crate) fn json_bool(value: bool) -> (r: serde_json::Value)
    ensures
        json_of(r) == JsonView::Bool(value),
{
    serde_json::Value::Bool(value)
}

/// `serde_json::Value::from` on an unsigned integer gives the number itself.
#[verifier::external_body]
pub(crate) fn json_whole(value: u64) -> (r: serde_json::Value)
    ensures
        json_of(r) == JsonView::Whole(value as int),
{
    serde_json::Value::from(value)
}

/// `serde_json::Value::String`.
#[verifier::external_body]
pub(crate) fn json_text(value: String) -> (r: serde_json::Value)
    ensures
        json_of(r) == JsonView::Text(value@),
{
    serde_json::Value::String(value)
}

/// `serde_json::Value::Array`.
#[verifier::external_body]
pub(crate) fn json_array(items: Vec<serde_json::Value>) -> (r: serde_json::Value)
    ensures
        json_of(r) == JsonView::Array(items_of(items@)),
{
    serde_json::Value::Array(items)
}

/// `serde_json::Value::Object`.
#[verifier::external_body]
pub(crate) fn json_object(members: JsonMap) -> (r: serde_json::Value)
    ensures
        json_of(r) == JsonView::Object(members_of(members)),
{
    serde_json::Value::Object(members)
}

/// `serde_json::Value::clone` keeps what the value holds.
#[verifier::external_body]
pub(crate) fn copy_json(value: &serde_json::Value) -> (r: serde_json::Value)
    ensures
        json_of(r) == json_of(*value),
{
    value.clone()
}

/// `==` of `serde_json::Value`: equal values are the same, but for the two
/// zero floats, which are equal.
#[verifier::external_body]
pub(crate) fn equal_json(a: &serde_json::Value, b: &serde_json::Value) -> (r: bool)
    ensures
        r == json_same(json_of(*a), json_of(*b)),
{
    a == b
}

/// `serde_json::Value::is_null`.
#[verifier::external_body]
pub(crate) fn is_null(value: &serde_json::Value) -> (r: bool)
    ensures
        r == (json_of(*value) is Null),
{
    value.is_null()
}

/// `serde_json::Value::as_str` gives the text of a string, and nothing of any
/// other value.
#[verifier::external_body]
pub(crate) fn as_text(value: &serde_json::Value) -> (r: Option<&str>)
    ensures
        r is Some <==> json_of(*value) is Text,
        r matches Some(text) ==> json_of(*value) == JsonView::Text(text@),
{
    value.as_str()
}

/// `serde_json::Value::as_u64` gives an integer that is not negative and fits
/// 64 bits, and nothing of any other value.
#[verifier::external_body]
pub(crate) fn as_whole(value: &serde_json::Value) -> (r: Option<u64>)
    ensures
        r is Some <==> (json_of(*value) matches JsonView::Whole(n) && 0 <= n <= u64::MAX),
        r matches Some(n) ==> json_of(*value) == JsonView::Whole(n as int),
{
    value.as_u64()
}

/// `serde_json::Value::as_array` gives the items of an array, and nothing of
/// any other value.
#[verifier::external_body]
pub(crate) fn as_array(value: &serde_json::Value) -> (r: Option<&Vec<serde_json::Value>>)
    ensures
        r is Some <==> json_of(*value) is Array,
        r matches Some(items) ==> json_of(*value) == JsonView::Array(items_of(items@)),
{
    value.as_array()
}

/// `serde_json::Value::as_object` gives the members of an object, and nothing
/// of any other value.
#[verifier::external_body]
pub(crate) fn as_object(value: &serde_json::Value) -> (r: Option<&JsonMap>)
    ensures
        r is Some <==> json_of(*value) is Object,
        r matches Some(members) ==> json_of(*value) == JsonView::Object(members_of(*members)),
{
    value.as_object()
}

/// `serde_json::Map::new`.
#[verifier::external_body]
pub(crate) fn new_members() -> (r: JsonMap)
    ensures
        members_of(r) == no_fields(),
{
    serde_json::Map::new()
}

/// `serde_json::Map::clone` keeps what the map holds.
#[verifier::external_body]
pub(crate) fn copy_members(members: &JsonMap) -> (r: JsonMap)
    ensures
        members_of(r) == members_of(*members),
{
    members.clone()
}

/// `serde_json::Map::is_empty`.
#[verifier::external_body]
pub(crate) fn no_members(members: &JsonMap) -> (r: bool)
    ensures
        r == (members_of(*members) == no_fields()),
{
    members.is_empty()
}

/// `serde_json::Map::get` gives the value of a key that is there.
#[verifier::external_body]
pub(crate) fn get_member<'a>(members: &'a JsonMap, key: &str) -> (r: Option<&'a serde_json::Value>)
    ensures
        r is Some <==> members_of(*members).contains_key(key@),
        r matches Some(value) ==> json_of(*value) == members_of(*members)[key@],
{
    members.get(key)
}

/// `serde_json::Map::insert` sets the value of a key and keeps the others.
#[verifier::external_body]
pub(crate) fn put_member(members: &mut JsonMap, key: &str, value: serde_json::Value)
    ensures
        members_of(*final(members)) == members_of(*old(members)).insert(key@, json_of(value)),
{
    members.insert(key.to_owned(), value);
}

/// `serde_json::Map::remove` takes a key out, keeps the others, and gives the
/// value that the key had.
#[verifier::external_body]
pub(crate) fn take_member(members: &mut JsonMap, key: &str) -> (r: Option<serde_json::Value>)
    ensures
        members_of(*final(members)) == members_of(*old(members)).remove(key@),
        r is Some <==> members_of(*old(members)).contains_key(key@),
        r matches Some(value) ==> json_of(value) == members_of(*old(members))[key@],
{
    members.remove(key)
}

/// `serde_json::Map::iter` walks the members in the order of their keys.
#[verifier::external_body]
pub(crate) fn list_members(members: &JsonMap) -> (r: Vec<(String, serde_json::Value)>)
    ensures
        lists(rows_of(r@), members_of(*members)),
{
    members.iter().map(|(key, value)| (key.clone(), value.clone())).collect()
}

} // verus!
