//! Reading and printing JSON text with `serde_json`.
use vstd::prelude::*;

use crate::json::{
    items_view, members_view, opt_json, group_json_view, Json, JsonNumber, JsonView, NumberView,
};
use crate::text::{chars_of, digits_up_to, parse_digits};

verus! {

/// `serde_json::Value`. What a value holds is named by `value_json`.
#[verifier::external_type_specification]
#[verifier::external_body]
pub struct ExValue(serde_json::Value);

/// What a `serde_json::Value` holds: the same value in the model of this
/// library, an object's members in the order of `serde_json`'s map and a number
/// as `number_of` reads the text that `serde_json` prints for it.
pub uninterp spec fn value_json(v: serde_json::Value) -> JsonView;

/// What `serde_json::from_str` makes of a text; nothing where it reports an error.
pub uninterp spec fn parsed_json(text: Seq<char>) -> Option<JsonView>;

/// The number that a JSON number's text writes: an integer where it is one and
/// fits `u64` or `i64`, else the text itself.
pub open spec fn number_of(text: Seq<char>) -> NumberView {
    match digits_up_to(text, u64::MAX as nat) {
        Some(n) => NumberView::Int(n as int),
        None => if text.len() > 0 && text[0] == '-' {
            match digits_up_to(text.drop_first(), 0x8000_0000_0000_0000) {
                Some(n) => NumberView::Int(-n),
                None => NumberView::Decimal(text),
            }
        } else {
            NumberView::Decimal(text)
        },
    }
}

/// The outermost layer of a `serde_json::Value`.
pub enum JsonLayer {
    Null,
    Bool(bool),
    Number(String),
    Text(String),
    Array(Vec<serde_json::Value>),
    Object(Vec<(String, serde_json::Value)>),
}

/// What a layer and the values below it hold.
pub open spec fn layer_json(l: JsonLayer) -> JsonView {
    match l {
        JsonLayer::Null => JsonView::Null,
        JsonLayer::Bool(b) => JsonView::Bool(b),
        JsonLayer::Number(t) => JsonView::Number(number_of(t@)),
        JsonLayer::Text(s) => JsonView::Text(s@),
        JsonLayer::Array(v) => JsonView::Array(Seq::new(v@.len(), |i: int| value_json(v@[i]))),
        JsonLayer::Object(v) => JsonView::Object(values_view(v@)),
    }
}

/// Takes a `serde_json::Value` apart by matching on its variants. What the value
/// holds is what the layer and the values below it hold.
#[verifier::external_body]
fn open_value(v: serde_json::Value) -> (r: JsonLayer)
    ensures
        layer_json(r) == value_json(v),
{
    match v {
        serde_json::Value::Null => JsonLayer::Null,
        serde_json::Value::Bool(b) => JsonLayer::Bool(b),
        serde_json::Value::Number(n) => JsonLayer::Number(n.to_string()),
        serde_json::Value::String(s) => JsonLayer::Text(s),
        serde_json::Value::Array(a) => JsonLayer::Array(a),
        serde_json::Value::Object(m) => JsonLayer::Object(m.into_iter().collect()),
    }
}

/// Calls `serde_json::from_str`. The result is named: a value, or nothing where
/// the call reports an error, depending on the text alone.
#[verifier::external_body]
fn parse_value(text: &str) -> (r: Option<serde_json::Value>)
    ensures
        match r {
            Some(v) => parsed_json(text@) == Some(value_json(v)),
            None => parsed_json(text@) is None,
        },
{
    serde_json::from_str(text).ok()
}

fn read_number(text: String) -> (r: JsonNumber)
    ensures
        r@ == number_of(text@),
{
    let v = chars_of(text.as_str());
    assert(v@.skip(0) == text@);
    match parse_digits(&v, 0, u64::MAX) {
        Some(n) => {
            return JsonNumber::PosInt(n);
        },
        None => {},
    }
    if v.len() > 0 && v[0] == '-' {
        assert(v@.skip(1) == text@.drop_first());
        match parse_digits(&v, 1, 0x8000_0000_0000_0000) {
            Some(n) => {
                if n == 0x8000_0000_0000_0000 {
                    return JsonNumber::NegInt(i64::MIN);
                }
                return JsonNumber::NegInt(-(n as i64));
            },
            None => {},
        }
    }
    JsonNumber::Decimal(text)
}

/// The value that a `serde_json::Value` holds.
pub fn json_from_value(value: serde_json::Value) -> (r: Json)
    ensures
        r@ == value_json(value),
    decreases value_json(value),
{
    broadcast use group_json_view;

    let ghost whole = value_json(value);
    match open_value(value) {
        JsonLayer::Null => Json::Null,
        JsonLayer::Bool(b) => Json::Bool(b),
        JsonLayer::Number(t) => Json::Number(read_number(t)),
        JsonLayer::Text(s) => Json::Text(s),
        JsonLayer::Array(parts) => {
            let ghost all = whole->Array_0;
            let mut out: Vec<Json> = Vec::new();
            for v in it: parts.into_iter()
                invariant
                    whole == value_json(value),
                    whole is Array,
                    all == whole->Array_0,
                    it.seq() == parts@,
                    all.len() == parts@.len(),
                    forall|i: int|
                        0 <= i < all.len() ==> #[trigger] all[i] == value_json(parts@[i]),
                    out@.len() == it.index(),
                    items_view(out@) == all.take(it.index() as int),
            {
                let ghost k = out@.len() as int;
                let ghost was = items_view(out@);
                assert(v == parts@[k]);
                assert(all[k] == value_json(v));
                let j = json_from_value(v);
                out.push(j);
                assert(items_view(out@) =~= was.push(j@));
                assert(items_view(out@) =~= all.take(k + 1));
            }
            assert(items_view(out@) =~= all);
            Json::Array(out)
        },
        JsonLayer::Object(parts) => {
            let ghost all = whole->Object_0;
            let mut out: Vec<(String, Json)> = Vec::new();
            for part in it: parts.into_iter()
                invariant
                    whole == value_json(value),
                    whole is Object,
                    all == whole->Object_0,
                    it.seq() == parts@,
                    all.len() == parts@.len(),
                    forall|i: int|
                        0 <= i < all.len() ==> #[trigger] all[i] == (
                            parts@[i].0@,
                            value_json(parts@[i].1),
                        ),
                    out@.len() == it.index(),
                    members_view(out@) == all.take(it.index() as int),
            {
                let ghost k = out@.len() as int;
                let ghost was = members_view(out@);
                assert(part == parts@[k]);
                let (key, v) = part;
                assert(all[k] == (key@, value_json(v)));
                assert(decreases_to!(all => all[k]));
                assert(decreases_to!(all[k] => all[k].1));
                let j = json_from_value(v);
                let ghost m = (key@, j@);
                out.push((key, j));
                assert(members_view(out@) =~= was.push(m));
                assert(members_view(out@) =~= all.take(k + 1));
            }
            assert(members_view(out@) =~= all);
            Json::Object(out)
        },
    }
}

/// Reads a text as JSON.
pub fn parse_json(text: &str) -> (r: Option<Json>)
    ensures
        opt_json(r) == parsed_json(text@),
{
    match parse_value(text) {
        Some(v) => Some(json_from_value(v)),
        None => None,
    }
}

// ---------------------------------------------------------------------------
// Printing
// ---------------------------------------------------------------------------

/// What `serde_json` prints for the number that it reads in a text; nothing where it
/// reads no number.
pub uninterp spec fn reprinted_number(text: Seq<char>) -> Option<Seq<char>>;

/// What `serde_json::to_string_pretty` prints for a value.
pub uninterp spec fn pretty_json(j: JsonView) -> Seq<char>;

/// Whether `a` stands before `b`, by the numbers of their characters.
pub open spec fn key_before(a: Seq<char>, b: Seq<char>) -> bool
    decreases a.len(),
{
    if b.len() == 0 {
        false
    } else if a.len() == 0 {
        true
    } else if a[0] != b[0] {
        a[0] < b[0]
    } else {
        key_before(a.drop_first(), b.drop_first())
    }
}

/// An ordered list of members with one more, in the place of one with the same key.
pub open spec fn with_member(
    m: Seq<(Seq<char>, JsonView)>,
    member: (Seq<char>, JsonView),
) -> Seq<(Seq<char>, JsonView)>
    decreases m.len(),
{
    if m.len() == 0 || key_before(m.last().0, member.0) {
        m.push(member)
    } else if m.last().0 == member.0 {
        m.drop_last().push(member)
    } else {
        with_member(m.drop_last(), member).push(m.last())
    }
}

/// Members in the order of their keys; of two with the same key the last.
pub open spec fn ordered(m: Seq<(Seq<char>, JsonView)>) -> Seq<(Seq<char>, JsonView)>
    decreases m.len(),
{
    if m.len() == 0 {
        Seq::empty()
    } else {
        with_member(ordered(m.drop_last()), m.last())
    }
}

/// The outermost layer of a value that is to become a `serde_json::Value`.
pub enum ValueLayer {
    Null,
    Bool(bool),
    PosInt(u64),
    NegInt(i64),
    Text(String),
    Array(Vec<serde_json::Value>),
    Object(Vec<(String, serde_json::Value)>),
}

/// What the values of some members hold.
pub open spec fn values_view(s: Seq<(String, serde_json::Value)>) -> Seq<(Seq<char>, JsonView)> {
    Seq::new(s.len(), |i: int| (s[i].0@, value_json(s[i].1)))
}

/// What the `serde_json::Value` of a layer holds: `serde_json` keeps the members of
/// an object in the order of their keys.
pub open spec fn value_layer_json(l: ValueLayer) -> JsonView {
    match l {
        ValueLayer::Null => JsonView::Null,
        ValueLayer::Bool(b) => JsonView::Bool(b),
        ValueLayer::PosInt(n) => JsonView::Number(NumberView::Int(n as int)),
        ValueLayer::NegInt(n) => JsonView::Number(NumberView::Int(n as int)),
        ValueLayer::Text(s) => JsonView::Text(s@),
        ValueLayer::Array(v) => JsonView::Array(Seq::new(v@.len(), |i: int| value_json(v@[i]))),
        ValueLayer::Object(v) => JsonView::Object(ordered(values_view(v@))),
    }
}

/// Builds a `serde_json::Value` from its variants and `From` impls. Its map is
/// ordered by key, and keeps the last of two members with the same key.
#[verifier::external_body]
fn close_value(l: ValueLayer) -> (r: serde_json::Value)
    ensures
        value_json(r) == value_layer_json(l),
{
    match l {
        ValueLayer::Null => serde_json::Value::Null,
        ValueLayer::Bool(b) => serde_json::Value::Bool(b),
        ValueLayer::PosInt(n) => serde_json::Value::from(n),
        ValueLayer::NegInt(n) => serde_json::Value::from(n),
        ValueLayer::Text(s) => serde_json::Value::String(s),
        ValueLayer::Array(v) => serde_json::Value::Array(v),
        ValueLayer::Object(v) => serde_json::Value::Object(v.into_iter().collect()),
    }
}

/// Reads a number with `serde_json::from_str`. The number that comes out is named by
/// the text that `serde_json` prints for it.
#[verifier::external_body]
fn decimal_value(text: &str) -> (r: Option<serde_json::Value>)
    ensures
        match r {
            Some(v) => reprinted_number(text@) is Some && value_json(v) == JsonView::Number(
                number_of(reprinted_number(text@)->0),
            ),
            None => reprinted_number(text@) is None,
        },
{
    serde_json::from_str::<serde_json::Number>(text).ok().map(serde_json::Value::Number)
}

/// Calls `serde_json::to_string_pretty`, which prints any value. The text is named:
/// it depends on what the value holds alone.
#[verifier::external_body]
fn print_pretty(v: &serde_json::Value) -> (r: String)
    ensures
        r@ == pretty_json(value_json(*v)),
{
    serde_json::to_string_pretty(v).unwrap_or_default()
}

/// A value as `serde_json` keeps it.
pub open spec fn stored(j: JsonView) -> JsonView
    decreases j,
{
    match j {
        JsonView::Number(NumberView::Decimal(t)) => match reprinted_number(t) {
            Some(p) => JsonView::Number(number_of(p)),
            None => JsonView::Null,
        },
        JsonView::Array(s) => JsonView::Array(
            Seq::new(
                s.len(),
                |i: int|
                    if 0 <= i < s.len() {
                        stored(s[i])
                    } else {
                        JsonView::Null
                    },
            ),
        ),
        JsonView::Object(m) => JsonView::Object(ordered(stored_members(m))),
        other => other,
    }
}

/// Members whose values are as `serde_json` keeps them.
pub open spec fn stored_members(m: Seq<(Seq<char>, JsonView)>) -> Seq<(Seq<char>, JsonView)>
    decreases m,
{
    if m.len() == 0 {
        Seq::empty()
    } else {
        stored_members(m.drop_last()).push((m.last().0, stored(m.last().1)))
    }
}

/// A value as a `serde_json::Value`.
pub fn json_to_value(j: &Json) -> (r: serde_json::Value)
    ensures
        value_json(r) == stored(j@),
    decreases j,
{
    broadcast use group_json_view;

    match j {
        Json::Null => close_value(ValueLayer::Null),
        Json::Bool(b) => close_value(ValueLayer::Bool(*b)),
        Json::Number(JsonNumber::PosInt(n)) => close_value(ValueLayer::PosInt(*n)),
        Json::Number(JsonNumber::NegInt(n)) => close_value(ValueLayer::NegInt(*n)),
        Json::Number(JsonNumber::Decimal(t)) => match decimal_value(t.as_str()) {
            Some(v) => v,
            None => close_value(ValueLayer::Null),
        },
        Json::Text(s) => close_value(ValueLayer::Text(s.clone())),
        Json::Array(v) => {
            let mut out: Vec<serde_json::Value> = Vec::new();
            let mut i: usize = 0;
            while i < v.len()
                invariant
                    *j is Array,
                    *v == j->Array_0,
                    i <= v@.len(),
                    out@.len() == i,
                    forall|k: int| 0 <= k < i ==> value_json(#[trigger] out@[k]) == stored(v@[k]@),
                decreases v@.len() - i,
            {
                let e = json_to_value(&v[i]);
                out.push(e);
                i += 1;
            }
            let ghost l = ValueLayer::Array(out);
            assert(value_layer_json(l)->Array_0 =~= stored(j@)->Array_0);
            close_value(ValueLayer::Array(out))
        },
        Json::Object(v) => {
            let mut out: Vec<(String, serde_json::Value)> = Vec::new();
            let ghost m = members_view(v@);
            let mut i: usize = 0;
            assert(values_view(out@) =~= stored_members(m.take(0)));
            while i < v.len()
                invariant
                    *j is Object,
                    *v == j->Object_0,
                    i <= v@.len(),
                    m == members_view(v@),
                    values_view(out@) == stored_members(m.take(i as int)),
                decreases v@.len() - i,
            {
                assert(decreases_to!(v@ => v@[i as int]));
                assert(decreases_to!(v@[i as int] => v@[i as int].1));
                let ghost was = values_view(out@);
                let e = json_to_value(&v[i].1);
                assert(m.take(i + 1).drop_last() =~= m.take(i as int));
                out.push((v[i].0.clone(), e));
                assert(values_view(out@) =~= was.push((v@[i as int].0@, value_json(e))));
                i += 1;
            }
            assert(m.take(i as int) =~= m);
            close_value(ValueLayer::Object(out))
        },
    }
}

/// A value as text, over several lines with two spaces of indentation.
pub fn print_json(j: &Json) -> (r: String)
    ensures
        r@ == pretty_json(stored(j@)),
{
    print_pretty(&json_to_value(j))
}

/// The numbers of JSON: an integer is read as its value where it fits, and any other number is
/// kept as its text.
pub proof fn law_numbers_of_json(n: nat, text: Seq<char>, i: int)
    ensures
        n <= 0xffff_ffff_ffff_ffff ==> number_of(crate::text::decimal(n)) == NumberView::Int(
            n as int,
        ),
        0 < n <= 0x8000_0000_0000_0000 ==> number_of(seq!['-'] + crate::text::decimal(n))
            == NumberView::Int(-n),
        0 < i < text.len() && !('0' <= text[i] <= '9') ==> number_of(text) == NumberView::Decimal(
            text,
        ),
{
    crate::text::law_numbers_read_back(n, 0xffff_ffff_ffff_ffff);
    crate::text::law_numbers_read_back(n, 0x8000_0000_0000_0000);
    let m = seq!['-'] + crate::text::decimal(n);
    assert(m.drop_first() =~= crate::text::decimal(n));
    assert(m[0] == '-');
    crate::text::law_other_texts_are_no_numbers(m, 0, 0xffff_ffff_ffff_ffff);
    if 0 < i < text.len() && !('0' <= text[i] <= '9') {
        crate::text::law_other_texts_are_no_numbers(text, i, 0xffff_ffff_ffff_ffff);
        assert(text.drop_first()[i - 1] == text[i]);
        crate::text::law_other_texts_are_no_numbers(
            text.drop_first(),
            i - 1,
            0x8000_0000_0000_0000,
        );
    }
}

} // verus!
