//! How values of JSON and of YAML are compared, ordered and looked through.
#[allow(unused_imports)]
use crate::json::{self, JsonView};
#[allow(unused_imports)]
use crate::yaml::{self, YamlView};
use vstd::prelude::*;

verus! {

/// Values of one sort that hold no others are the same exactly where they are
/// equal, except that the two zeros of floats, which differ in sign, are the same.
pub proof fn plain_values_are_the_same_where_equal(
    a: bool,
    b: bool,
    m: int,
    n: int,
    x: u64,
    y: u64,
    s: Seq<char>,
    t: Seq<char>,
)
    ensures
        json::json_same(JsonView::Null, JsonView::Null),
        json::json_same(JsonView::Bool(a), JsonView::Bool(b)) <==> a == b,
        json::json_same(JsonView::Whole(m), JsonView::Whole(n)) <==> m == n,
        json::json_same(JsonView::Text(s), JsonView::Text(t)) <==> s == t,
        json::json_same(JsonView::Real(x), JsonView::Real(y)) <==> x == y || ((x == 0 || x
            == 0x8000_0000_0000_0000) && (y == 0 || y == 0x8000_0000_0000_0000)),
        !json::json_same(JsonView::Whole(m), JsonView::Real(y)),
        !json::json_same(JsonView::Bool(a), JsonView::Null),
        !json::json_same(JsonView::Text(s), JsonView::Whole(n)),
{
}

/// Arrays are the same exactly where they are as long and hold the same values at
/// each place.
pub proof fn arrays_are_the_same_place_by_place(a: Seq<JsonView>, b: Seq<JsonView>)
    ensures
        json::json_same(JsonView::Array(a), JsonView::Array(b)) <==> a.len() == b.len() && forall|
            i: int,
        |
            0 <= i < a.len() ==> json::json_same(#[trigger] a[i], b[i]),
{
}

/// Objects are the same exactly where they have the same keys, and the same value
/// under each.
pub proof fn objects_are_the_same_key_by_key(
    a: Map<Seq<char>, JsonView>,
    b: Map<Seq<char>, JsonView>,
)
    ensures
        json::json_same(JsonView::Object(a), JsonView::Object(b)) <==> (forall|k: Seq<char>| #[trigger]
            a.contains_key(k) <==> b.contains_key(k)) && forall|k: Seq<char>|
            a.contains_key(k) ==> json::json_same(#[trigger] a[k], b[k]),
{
    if forall|k: Seq<char>| #[trigger] a.contains_key(k) <==> b.contains_key(k) {
        assert(a.dom() =~= b.dom());
    }
    if a.dom() == b.dom() {
        assert forall|k: Seq<char>| #[trigger] a.contains_key(k) <==> b.contains_key(k) by {
            assert(a.dom().contains(k) == b.dom().contains(k));
        }
    }
}

/// A text comes before every longer one that begins with it, and of two texts
/// that part at some character the one with the smaller character comes first.
pub proof fn texts_are_in_order_where_they_part(
    shared: Seq<char>,
    a: char,
    x: Seq<char>,
    b: char,
    y: Seq<char>,
)
    ensures
        json::text_before(shared, shared + seq![b] + y),
        !json::text_before(shared + seq![a] + x, shared),
        a != b ==> (json::text_before(shared + seq![a] + x, shared + seq![b] + y) <==> a < b),
        !json::text_before(shared, shared),
    decreases shared.len(),
{
    let left = shared + seq![a] + x;
    let right = shared + seq![b] + y;
    if shared.len() == 0 {
        assert(left[0] == a);
        assert(right[0] == b);
    } else {
        let rest = shared.skip(1);
        texts_are_in_order_where_they_part(rest, a, x, b, y);
        assert(left.skip(1) =~= rest + seq![a] + x);
        assert(right.skip(1) =~= rest + seq![b] + y);
        assert(left[0] == shared[0]);
        assert(right[0] == shared[0]);
    }
}

/// Tags are looked through, however many there are, and what has none stands for
/// itself.
pub proof fn tags_are_looked_through(tag: Seq<char>, value: YamlView)
    ensures
        yaml::bare(YamlView::Tagged(tag, Box::new(value))) == yaml::bare(value),
        !(yaml::bare(value) is Tagged),
        !(value is Tagged) ==> yaml::bare(value) == value,
    decreases value,
{
    if let YamlView::Tagged(other, inner) = value {
        tags_are_looked_through(other, *inner);
    }
}

} // verus!
