//! YAML values of `serde_yaml`, seen as a mathematical tree.
//!
//! The functions here that carry `external_body` each make one call into
//! `serde_yaml`. A mapping keeps its entries in the order in which their keys
//! were first set.
use vstd::prelude::*;

verus! {

/// `serde_yaml::Value`, of which nothing is known but what `yaml_of` names.
#[verifier::external_type_specification]
#[verifier::external_body]
pub struct ExYamlValue(serde_yaml::Value);

/// `serde_yaml::Mapping`, of which nothing is known but what `entries_of`
/// names.
#[verifier::external_type_specification]
#[verifier::external_body]
pub struct ExYamlMapping(serde_yaml::Mapping);

/// What a YAML value is.
pub enum YamlView {
    Null,
    Bool(bool),
    /// An integer.
    Whole(int),
    /// A float, by its IEEE 754 bits.
    Real(u64),
    Text(Seq<char>),
    Sequence(Seq<YamlView>),
    /// The entries of a mapping, in order.
    Mapping(Seq<(YamlView, YamlView)>),
    /// A value with a tag.
    Tagged(Seq<char>, Box<YamlView>),
}

/// What a `serde_yaml::Value` holds.
pub uninterp spec fn yaml_of(value: serde_yaml::Value) -> YamlView;

/// What a `serde_yaml::Mapping` holds.
pub uninterp spec fn entries_of(mapping: serde_yaml::Mapping) -> Seq<(YamlView, YamlView)>;

/// What YAML text reads as, or why it does not: the result of
/// `serde_yaml::from_str` into a `serde_yaml::Value`.
pub uninterp spec fn yaml_read(text: Seq<char>) -> Result<YamlView, Seq<char>>;

/// The text of a value, or why there is none: the result of
/// `serde_yaml::to_string`.
pub uninterp spec fn yaml_written(value: YamlView) -> Result<Seq<char>, Seq<char>>;

/// A value without its tags.
pub open spec fn bare(value: YamlView) -> YamlView
    decreases value,
{
    match value {
        YamlView::Tagged(_, inner) => bare(*inner),
        _ => value,
    }
}

/// The value under a text key, if there is one.
pub open spec fn lookup(entries: Seq<(YamlView, YamlView)>, key: Seq<char>) -> Option<YamlView>
    decreases entries.len(),
{
    if entries.len() == 0 {
        None
    } else if entries[0].0 == YamlView::Text(key) {
        Some(entries[0].1)
    } else {
        lookup(entries.skip(1), key)
    }
}

/// The entries with the value under a text key set: in its place where the key
/// is there, and else at the end.
pub open spec fn put(
    entries: Seq<(YamlView, YamlView)>,
    key: Seq<char>,
    value: YamlView,
) -> Seq<(YamlView, YamlView)>
    decreases entries.len(),
{
    if entries.len() == 0 {
        seq![(YamlView::Text(key), value)]
    } else if entries[0].0 == YamlView::Text(key) {
        entries.update(0, (YamlView::Text(key), value))
    } else {
        seq![entries[0]] + put(entries.skip(1), key, value)
    }
}

/// The entries of an empty mapping.
pub open spec fn no_entries() -> Seq<(YamlView, YamlView)> {
    Seq::empty()
}

/// The entries that setting some keys in order gives.
pub open spec fn built(rows: Seq<(Seq<char>, YamlView)>) -> Seq<(YamlView, YamlView)>
    decreases rows.len(),
{
    if rows.len() == 0 {
        no_entries()
    } else {
        put(built(rows.drop_last()), rows.last().0, rows.last().1)
    }
}

/// A mapping with these entries.
pub open spec fn table(rows: Seq<(Seq<char>, YamlView)>) -> YamlView {
    YamlView::Mapping(built(rows))
}

/// A value that is a text.
pub open spec fn words(text: Seq<char>) -> YamlView {
    YamlView::Text(text)
}

/// What a row of values holds.
pub open spec fn values_of(values: Seq<serde_yaml::Value>) -> Seq<YamlView> {
    values.map_values(|value: serde_yaml::Value| yaml_of(value))
}

/// What a row of entries holds.
pub open spec fn pairs_of(pairs: Seq<(serde_yaml::Value, serde_yaml::Value)>) -> Seq<
    (YamlView, YamlView),
> {
    pairs.map_values(|pair: (serde_yaml::Value, serde_yaml::Value)| (yaml_of(pair.0), yaml_of(pair.1)))
}

/// What a value or an error text holds.
pub open spec fn value_result(r: Result<serde_yaml::Value, String>) -> Result<
    YamlView,
    Seq<char>,
> {
    match r {
        Ok(value) => Ok(yaml_of(value)),
        Err(error) => Err(error@),
    }
}

/// What a text or an error text holds.
pub open spec fn text_result(r: Result<String, String>) -> Result<Seq<char>, Seq<char>> {
    match r {
        Ok(text) => Ok(text@),
        Err(error) => Err(error@),
    }
}

/// `serde_yaml::from_str` into a value: its result is a function of the text
/// alone, here under the name `yaml_read`; an error is given by its text.
#[verifier::external_body]
pub(crate) fn read_yaml(text: &str) -> (r: Result<serde_yaml::Value, String>)
    ensures
        value_result(r) == yaml_read(text@),
{
    serde_yaml::from_str(text).map_err(|error| error.to_string())
}

/// `serde_yaml::to_string`: its result is a function of the value alone, here
/// under the name `yaml_written`; an error is given by its text.
#[verifier::external_body]
pub(crate) fn write_yaml(value: &serde_yaml::Value) -> (r: Result<String, String>)
    ensures
        text_result(r) == yaml_written(yaml_of(*value)),
{
    serde_yaml::to_string(value).map_err(|error| error.to_string())
}

/// `serde_yaml::Value::String`.
#[verifier::external_body]
pub(crate) fn yaml_text(value: String) -> (r: serde_yaml::Value)
    ensures
        yaml_of(r) == YamlView::Text(value@),
{
    serde_yaml::Value::String(value)
}

/// `serde_yaml::Value::Bool`.
#[verifier::external_body]
pub(crate) fn yaml_bool(value: bool) -> (r: serde_yaml::Value)
    ensures
        yaml_of(r) == YamlView::Bool(value),
{
    serde_yaml::Value::Bool(value)
}

/// `serde_yaml::Value::from` on an unsigned integer gives the number itself.
#[verifier::external_body]
pub(crate) fn yaml_whole(value: u64) -> (r: serde_yaml::Value)
    ensures
        yaml_of(r) == YamlView::Whole(value as int),
{
    serde_yaml::Value::from(value)
}

/// `serde_yaml::Value::Sequence`.
#[verifier::external_body]
pub(crate) fn yaml_sequence(values: Vec<serde_yaml::Value>) -> (r: serde_yaml::Value)
    ensures
        yaml_of(r) == YamlView::Sequence(values_of(values@)),
{
    serde_yaml::Value::Sequence(values)
}

/// `serde_yaml::Value::Mapping`.
#[verifier::external_body]
pub(crate) fn yaml_mapping(mapping: serde_yaml::Mapping) -> (r: serde_yaml::Value)
    ensures
        yaml_of(r) == YamlView::Mapping(entries_of(mapping)),
{
    serde_yaml::Value::Mapping(mapping)
}

/// `serde_yaml::Value::clone` keeps what the value holds.
#[verifier::external_body]
pub(crate) fn copy_yaml(value: &serde_yaml::Value) -> (r: serde_yaml::Value)
    ensures
        yaml_of(r) == yaml_of(*value),
{
    value.clone()
}

/// `serde_yaml::Value::as_str` gives the text of a string, tagged or not, and
/// nothing of any other value.
#[verifier::external_body]
pub(crate) fn as_yaml_text(value: &serde_yaml::Value) -> (r: Option<&str>)
    ensures
        r is Some <==> bare(yaml_of(*value)) is Text,
        r matches Some(text) ==> bare(yaml_of(*value)) == YamlView::Text(text@),
{
    value.as_str()
}

/// `serde_yaml::Value::as_u64` gives an integer, tagged or not, that is not
/// negative and fits 64 bits, and nothing of any other value.
#[verifier::external_body]
pub(crate) fn as_yaml_whole(value: &serde_yaml::Value) -> (r: Option<u64>)
    ensures
        r is Some <==> (bare(yaml_of(*value)) matches YamlView::Whole(n) && 0 <= n <= u64::MAX),
        r matches Some(n) ==> bare(yaml_of(*value)) == YamlView::Whole(n as int),
{
    value.as_u64()
}

/// `serde_yaml::Value::as_bool` gives a truth value, tagged or not, and nothing
/// of any other value.
#[verifier::external_body]
pub(crate) fn as_yaml_bool(value: &serde_yaml::Value) -> (r: Option<bool>)
    ensures
        r is Some <==> bare(yaml_of(*value)) is Bool,
        r matches Some(b) ==> bare(yaml_of(*value)) == YamlView::Bool(b),
{
    value.as_bool()
}

/// `serde_yaml::Value::as_sequence` gives the values of a sequence, tagged or
/// not, and nothing of any other value.
#[verifier::external_body]
pub(crate) fn as_yaml_sequence(value: &serde_yaml::Value) -> (r: Option<&Vec<serde_yaml::Value>>)
    ensures
        r is Some <==> bare(yaml_of(*value)) is Sequence,
        r matches Some(values) ==> bare(yaml_of(*value)) == YamlView::Sequence(values_of(values@)),
{
    value.as_sequence()
}

/// `serde_yaml::Value::as_mapping` gives the entries of a mapping, tagged or
/// not, and nothing of any other value.
#[verifier::external_body]
pub(crate) fn as_yaml_mapping(value: &serde_yaml::Value) -> (r: Option<&serde_yaml::Mapping>)
    ensures
        r is Some <==> bare(yaml_of(*value)) is Mapping,
        r matches Some(mapping) ==> bare(yaml_of(*value)) == YamlView::Mapping(
            entries_of(*mapping),
        ),
{
    value.as_mapping()
}

/// `serde_yaml::Mapping::new`.
#[verifier::external_body]
pub(crate) fn new_entries() -> (r: serde_yaml::Mapping)
    ensures
        entries_of(r) == no_entries(),
{
    serde_yaml::Mapping::new()
}

/// `serde_yaml::Mapping::get` with a string as the key gives the value of a key
/// that is that string.
#[verifier::external_body]
pub(crate) fn get_entry<'a>(mapping: &'a serde_yaml::Mapping, key: &str) -> (r: Option<
    &'a serde_yaml::Value,
>)
    ensures
        r is Some <==> lookup(entries_of(*mapping), key@) is Some,
        r matches Some(value) ==> lookup(entries_of(*mapping), key@) == Some(yaml_of(*value)),
{
    mapping.get(serde_yaml::Value::from(key))
}

/// `serde_yaml::Mapping::insert` with a string as the key sets the value of
/// that key, in its place or at the end, and keeps the others.
#[verifier::external_body]
pub(crate) fn put_entry(mapping: &mut serde_yaml::Mapping, key: &str, value: serde_yaml::Value)
    ensures
        entries_of(*final(mapping)) == put(entries_of(*old(mapping)), key@, yaml_of(value)),
{
    mapping.insert(serde_yaml::Value::from(key), value);
}

/// `serde_yaml::Mapping::iter` walks the entries in order.
#[verifier::external_body]
pub(crate) fn list_entries(mapping: &serde_yaml::Mapping) -> (r: Vec<
    (serde_yaml::Value, serde_yaml::Value),
>)
    ensures
        pairs_of(r@) == entries_of(*mapping),
{
    mapping.iter().map(|(key, value)| (key.clone(), value.clone())).collect()
}

/// What rows of keys and values hold.
pub open spec fn rows_view(rows: Seq<(&'static str, serde_yaml::Value)>) -> Seq<
    (Seq<char>, YamlView),
> {
    rows.map_values(|row: (&'static str, serde_yaml::Value)| (row.0@, yaml_of(row.1)))
}

/// Sets some keys in order, in a new mapping.
pub(crate) fn build_entries(rows: &Vec<(&'static str, serde_yaml::Value)>) -> (r:
    serde_yaml::Mapping)
    ensures
        entries_of(r) == built(rows_view(rows@)),
{
    let mut r = new_entries();
    let ghost views = rows_view(rows@);
    let mut i: usize = 0;
    proof {
        assert(views.take(0) =~= Seq::empty());
    }
    while i < rows.len()
        invariant
            views == rows_view(rows@),
            i <= rows.len(),
            entries_of(r) == built(views.take(i as int)),
        decreases rows.len() - i,
    {
        proof {
            assert(views.take(i + 1).drop_last() =~= views.take(i as int));
            assert(views.take(i + 1).last() == (rows@[i as int].0@, yaml_of(rows@[i as int].1)));
        }
        put_entry(&mut r, rows[i].0, copy_yaml(&rows[i].1));
        i += 1;
    }
    proof {
        assert(views.take(i as int) =~= views);
    }
    r
}

/// A text as a value.
pub(crate) fn yaml_words(text: &str) -> (r: serde_yaml::Value)
    ensures
        yaml_of(r) == words(text@),
{
    yaml_text(text.to_owned())
}

/// A key that was set has the value it was set to, and every other key has the
/// value it had.
pub proof fn set_keys_read_back(
    entries: Seq<(YamlView, YamlView)>,
    key: Seq<char>,
    value: YamlView,
    other: Seq<char>,
)
    ensures
        lookup(put(entries, key, value), key) == Some(value),
        other != key ==> lookup(put(entries, key, value), other) == lookup(entries, other),
    decreases entries.len(),
{
    if entries.len() == 0 {
        let one = seq![(YamlView::Text(key), value)];
        assert(one.skip(1) =~= Seq::empty());
        assert(lookup(one.skip(1), other) is None);
    } else if entries[0].0 == YamlView::Text(key) {
        assert(entries.update(0, (YamlView::Text(key), value)).skip(1) =~= entries.skip(1));
    } else {
        let rest = put(entries.skip(1), key, value);
        set_keys_read_back(entries.skip(1), key, value, other);
        assert((seq![entries[0]] + rest).skip(1) =~= rest);
    }
}

} // verus!
