//! JSON values: the type that the rest of the library reads, and its exchange
//! with `serde_json`.
use vstd::prelude::*;

use crate::text::str_eq;

verus! {

/// A JSON number. Integers are kept by value; every other number is kept in the
/// decimal notation that `serde_json` gives it.
#[derive(Debug)]
pub enum JsonNumber {
    PosInt(u64),
    NegInt(i64),
    Decimal(String),
}

/// A JSON value. The keys of an object are taken in order; where a key occurs
/// twice the first one counts.
#[derive(Debug)]
pub enum Json {
    Null,
    Bool(bool),
    Number(JsonNumber),
    Text(String),
    Array(Vec<Json>),
    Object(Vec<(String, Json)>),
}

/// The model of a JSON number.
pub enum NumberView {
    Int(int),
    Decimal(Seq<char>),
}

/// The model of a JSON value.
pub enum JsonView {
    Null,
    Bool(bool),
    Number(NumberView),
    Text(Seq<char>),
    Array(Seq<JsonView>),
    Object(Seq<(Seq<char>, JsonView)>),
}

impl View for JsonNumber {
    type V = NumberView;

    open spec fn view(&self) -> NumberView {
        match self {
            JsonNumber::PosInt(n) => NumberView::Int(*n as int),
            JsonNumber::NegInt(n) => NumberView::Int(*n as int),
            JsonNumber::Decimal(s) => NumberView::Decimal(s@),
        }
    }
}

pub open spec fn json_view(j: Json) -> JsonView
    decreases j,
{
    match j {
        Json::Null => JsonView::Null,
        Json::Bool(b) => JsonView::Bool(b),
        Json::Number(n) => JsonView::Number(n@),
        Json::Text(s) => JsonView::Text(s@),
        Json::Array(v) => JsonView::Array(
            Seq::new(
                v@.len(),
                |i: int|
                    if 0 <= i < v@.len() {
                        json_view(v@[i])
                    } else {
                        JsonView::Null
                    },
            ),
        ),
        Json::Object(v) => JsonView::Object(
            Seq::new(
                v@.len(),
                |i: int|
                    if 0 <= i < v@.len() {
                        (v@[i].0@, json_view(v@[i].1))
                    } else {
                        (Seq::<char>::empty(), JsonView::Null)
                    },
            ),
        ),
    }
}

impl View for Json {
    type V = JsonView;

    open spec fn view(&self) -> JsonView {
        json_view(*self)
    }
}

/// The models of a list of values.
pub open spec fn items_view(s: Seq<Json>) -> Seq<JsonView> {
    Seq::new(s.len(), |i: int| s[i]@)
}

/// The model of the members of an object.
pub open spec fn members_view(s: Seq<(String, Json)>) -> Seq<(Seq<char>, JsonView)> {
    Seq::new(s.len(), |i: int| (s[i].0@, s[i].1@))
}

pub broadcast proof fn lemma_array_view(v: Vec<Json>)
    ensures
        #[trigger] json_view(Json::Array(v)) == JsonView::Array(items_view(v@)),
{
    assert(json_view(Json::Array(v))->Array_0 =~= items_view(v@));
}

pub broadcast proof fn lemma_object_view(v: Vec<(String, Json)>)
    ensures
        #[trigger] json_view(Json::Object(v)) == JsonView::Object(members_view(v@)),
{
    assert(json_view(Json::Object(v))->Object_0 =~= members_view(v@));
}

pub broadcast group group_json_view {
    lemma_array_view,
    lemma_object_view,
}

/// The model of an optional value.
pub open spec fn opt_json(o: Option<Json>) -> Option<JsonView> {
    match o {
        Some(j) => Some(j@),
        None => None,
    }
}

/// The model of an optional reference to a value.
pub open spec fn opt_ref(o: Option<&Json>) -> Option<JsonView> {
    match o {
        Some(j) => Some(j@),
        None => None,
    }
}

/// The value of the first member with the key `key`.
pub open spec fn lookup(members: Seq<(Seq<char>, JsonView)>, key: Seq<char>) -> Option<JsonView>
    decreases members.len(),
{
    if members.len() == 0 {
        None
    } else if members[0].0 == key {
        Some(members[0].1)
    } else {
        lookup(members.drop_first(), key)
    }
}

/// The value of the first of `keys` that is there.
pub open spec fn lookup_first(members: Seq<(Seq<char>, JsonView)>, keys: Seq<Seq<char>>) -> Option<
    JsonView,
>
    decreases keys.len(),
{
    if keys.len() == 0 {
        None
    } else {
        match lookup(members, keys[0]) {
            Some(v) => Some(v),
            None => lookup_first(members, keys.drop_first()),
        }
    }
}

impl JsonView {
    /// The member `key` of an object; nothing of any other value.
    pub open spec fn get(self, key: Seq<char>) -> Option<JsonView> {
        match self {
            JsonView::Object(m) => lookup(m, key),
            _ => None,
        }
    }

    /// The first of `keys` that an object has; nothing of any other value.
    pub open spec fn get_first(self, keys: Seq<Seq<char>>) -> Option<JsonView> {
        match self {
            JsonView::Object(m) => lookup_first(m, keys),
            _ => None,
        }
    }

    pub open spec fn as_text(self) -> Option<Seq<char>> {
        match self {
            JsonView::Text(s) => Some(s),
            _ => None,
        }
    }

    pub open spec fn as_bool(self) -> Option<bool> {
        match self {
            JsonView::Bool(b) => Some(b),
            _ => None,
        }
    }

    /// An integer from 0 to `u64::MAX`.
    pub open spec fn as_u64(self) -> Option<int> {
        match self {
            JsonView::Number(NumberView::Int(n)) => if 0 <= n <= u64::MAX {
                Some(n)
            } else {
                None
            },
            _ => None,
        }
    }

    /// An integer from `i64::MIN` to `i64::MAX`.
    pub open spec fn as_i64(self) -> Option<int> {
        match self {
            JsonView::Number(NumberView::Int(n)) => if i64::MIN <= n <= i64::MAX {
                Some(n)
            } else {
                None
            },
            _ => None,
        }
    }
}

/// The member `key` of what may be an object.
pub open spec fn opt_get(o: Option<JsonView>, key: Seq<char>) -> Option<JsonView> {
    match o {
        Some(j) => j.get(key),
        None => None,
    }
}

/// The text that may be there.
pub open spec fn opt_text(o: Option<JsonView>) -> Option<Seq<char>> {
    match o {
        Some(j) => j.as_text(),
        None => None,
    }
}

/// The text of the member `key`, if it is a text.
pub open spec fn text_at(members: Seq<(Seq<char>, JsonView)>, key: Seq<char>) -> Option<Seq<char>> {
    opt_text(lookup(members, key))
}

/// `o`, or `d` where there is nothing.
pub open spec fn or_text(o: Option<Seq<char>>, d: Seq<char>) -> Seq<char> {
    match o {
        Some(s) => s,
        None => d,
    }
}

/// `o`, or `null` where there is nothing.
pub open spec fn or_null(o: Option<JsonView>) -> JsonView {
    match o {
        Some(j) => j,
        None => JsonView::Null,
    }
}

/// `a`, or `b` where `a` is nothing.
pub open spec fn or_else<A>(a: Option<A>, b: Option<A>) -> Option<A> {
    match a {
        Some(_) => a,
        None => b,
    }
}

/// What `f` gives for the first of `keys` that is there and for which it gives
/// something.
pub open spec fn first_some<A>(
    members: Seq<(Seq<char>, JsonView)>,
    keys: Seq<Seq<char>>,
    f: spec_fn(JsonView) -> Option<A>,
) -> Option<A>
    decreases keys.len(),
{
    if keys.len() == 0 {
        None
    } else {
        let here = match lookup(members, keys[0]) {
            Some(v) => f(v),
            None => None,
        };
        match here {
            Some(a) => Some(a),
            None => first_some(members, keys.drop_first(), f),
        }
    }
}

/// The first of `keys` whose member is a text.
pub open spec fn first_text(members: Seq<(Seq<char>, JsonView)>, keys: Seq<Seq<char>>) -> Option<
    Seq<char>,
> {
    first_some(members, keys, |v: JsonView| v.as_text())
}

/// The texts of a list of keys.
pub open spec fn key_views(keys: Seq<&str>) -> Seq<Seq<char>> {
    Seq::new(keys.len(), |i: int| keys[i]@)
}

/// The first member with the key `key`.
pub fn find<'a>(members: &'a Vec<(String, Json)>, key: &str) -> (r: Option<&'a Json>)
    ensures
        opt_ref(r) == lookup(members_view(members@), key@),
{
    let mut i: usize = 0;
    let ghost all = members_view(members@);
    assert(all.skip(0) == all);
    while i < members.len()
        invariant
            i <= members@.len(),
            all == members_view(members@),
            lookup(all, key@) == lookup(all.skip(i as int), key@),
        decreases members@.len() - i,
    {
        assert(all.skip(i as int).drop_first() == all.skip(i + 1));
        if str_eq(members[i].0.as_str(), key) {
            return Some(&members[i].1);
        }
        i += 1;
    }
    None
}

/// The first of `keys` that is there.
pub fn find_first<'a>(members: &'a Vec<(String, Json)>, keys: &[&str]) -> (r: Option<&'a Json>)
    ensures
        opt_ref(r) == lookup_first(members_view(members@), key_views(keys@)),
{
    let mut i: usize = 0;
    let ghost all = key_views(keys@);
    assert(all.skip(0) == all);
    while i < keys.len()
        invariant
            i <= keys@.len(),
            all == key_views(keys@),
            lookup_first(members_view(members@), all) == lookup_first(
                members_view(members@),
                all.skip(i as int),
            ),
        decreases keys@.len() - i,
    {
        assert(all.skip(i as int).drop_first() == all.skip(i + 1));
        let found = find(members, keys[i]);
        if found.is_some() {
            return found;
        }
        i += 1;
    }
    None
}

/// The first of `keys` whose member is a text.
pub fn find_first_text<'a>(members: &'a Vec<(String, Json)>, keys: &[&str]) -> (r: Option<&'a str>)
    ensures
        match r {
            Some(s) => first_text(members_view(members@), key_views(keys@)) == Some(s@),
            None => first_text(members_view(members@), key_views(keys@)) is None,
        },
{
    let mut i: usize = 0;
    let ghost all = key_views(keys@);
    assert(all.skip(0) == all);
    while i < keys.len()
        invariant
            i <= keys@.len(),
            all == key_views(keys@),
            first_text(members_view(members@), all) == first_text(
                members_view(members@),
                all.skip(i as int),
            ),
        decreases keys@.len() - i,
    {
        assert(all.skip(i as int).drop_first() == all.skip(i + 1));
        match find_str(members, keys[i]) {
            Some(s) => {
                return Some(s);
            },
            None => {},
        }
        i += 1;
    }
    None
}

/// The text of the first member with the key `key`.
pub fn find_str<'a>(members: &'a Vec<(String, Json)>, key: &str) -> (r: Option<&'a str>)
    ensures
        match r {
            Some(s) => text_at(members_view(members@), key@) == Some(s@),
            None => text_at(members_view(members@), key@) is None,
        },
{
    match find(members, key) {
        Some(j) => j.as_str(),
        None => None,
    }
}

impl Json {
    pub fn get(&self, key: &str) -> (r: Option<&Json>)
        ensures
            opt_ref(r) == self@.get(key@),
    {
        broadcast use group_json_view;

        match self {
            Json::Object(m) => find(m, key),
            _ => None,
        }
    }

    pub fn get_first(&self, keys: &[&str]) -> (r: Option<&Json>)
        ensures
            opt_ref(r) == self@.get_first(key_views(keys@)),
    {
        broadcast use group_json_view;

        match self {
            Json::Object(m) => find_first(m, keys),
            _ => None,
        }
    }

    /// The text of the member `key`, if there is one and it is a text.
    pub fn get_str(&self, key: &str) -> (r: Option<&str>)
        ensures
            match r {
                Some(s) => opt_text(self@.get(key@)) == Some(s@),
                None => opt_text(self@.get(key@)) is None,
            },
    {
        match self.get(key) {
            Some(j) => j.as_str(),
            None => None,
        }
    }

    pub fn as_str(&self) -> (r: Option<&str>)
        ensures
            match r {
                Some(s) => self@.as_text() == Some(s@),
                None => self@.as_text() is None,
            },
    {
        match self {
            Json::Text(s) => Some(s.as_str()),
            _ => None,
        }
    }

    pub fn as_bool(&self) -> (r: Option<bool>)
        ensures
            r == self@.as_bool(),
    {
        match self {
            Json::Bool(b) => Some(*b),
            _ => None,
        }
    }

    pub fn as_u64(&self) -> (r: Option<u64>)
        ensures
            match r {
                Some(n) => self@.as_u64() == Some(n as int),
                None => self@.as_u64() is None,
            },
    {
        match self {
            Json::Number(JsonNumber::PosInt(n)) => Some(*n),
            Json::Number(JsonNumber::NegInt(n)) => if *n >= 0 {
                Some(*n as u64)
            } else {
                None
            },
            _ => None,
        }
    }

    pub fn as_i64(&self) -> (r: Option<i64>)
        ensures
            match r {
                Some(n) => self@.as_i64() == Some(n as int),
                None => self@.as_i64() is None,
            },
    {
        match self {
            Json::Number(JsonNumber::PosInt(n)) => if *n <= 0x7fff_ffff_ffff_ffff {
                Some(*n as i64)
            } else {
                None
            },
            Json::Number(JsonNumber::NegInt(n)) => Some(*n),
            _ => None,
        }
    }

    pub fn is_null(&self) -> (r: bool)
        ensures
            r == (self@ == JsonView::Null),
    {
        match self {
            Json::Null => true,
            _ => false,
        }
    }
}

impl Clone for JsonNumber {
    fn clone(&self) -> (r: Self)
        ensures
            r@ == self@,
    {
        match self {
            JsonNumber::PosInt(n) => JsonNumber::PosInt(*n),
            JsonNumber::NegInt(n) => JsonNumber::NegInt(*n),
            JsonNumber::Decimal(s) => JsonNumber::Decimal(s.clone()),
        }
    }
}

fn copy_json(j: &Json) -> (r: Json)
    ensures
        r@ == j@,
    decreases j,
{
    broadcast use group_json_view;

    match j {
        Json::Null => Json::Null,
        Json::Bool(b) => Json::Bool(*b),
        Json::Number(n) => Json::Number(n.clone()),
        Json::Text(s) => Json::Text(s.clone()),
        Json::Array(v) => {
            let mut out: Vec<Json> = Vec::new();
            let mut i: usize = 0;
            while i < v.len()
                invariant
                    *j is Array,
                    *v == j->Array_0,
                    i <= v@.len(),
                    items_view(out@) == items_view(v@).take(i as int),
                decreases v@.len() - i,
            {
                let ghost was = items_view(out@);
                let e = copy_json(&v[i]);
                out.push(e);
                assert(items_view(out@) =~= was.push(e@));
                i += 1;
            }
            assert(items_view(out@) =~= items_view(v@));
            Json::Array(out)
        },
        Json::Object(v) => {
            let mut out: Vec<(String, Json)> = Vec::new();
            let mut i: usize = 0;
            while i < v.len()
                invariant
                    *j is Object,
                    *v == j->Object_0,
                    i <= v@.len(),
                    members_view(out@) == members_view(v@).take(i as int),
                decreases v@.len() - i,
            {
                let ghost was = members_view(out@);
                let k = v[i].0.clone();
                assert(decreases_to!(v@ => v@[i as int]));
                assert(decreases_to!(v@[i as int] => v@[i as int].1));
                let e = copy_json(&v[i].1);
                let ghost m = (k@, e@);
                out.push((k, e));
                assert(members_view(out@) =~= was.push(m));
                i += 1;
            }
            assert(members_view(out@) =~= members_view(v@));
            Json::Object(out)
        },
    }
}

impl Clone for Json {
    fn clone(&self) -> (r: Self)
        ensures
            r@ == self@,
    {
        copy_json(self)
    }
}

/// A copy of what may be there, else `null`.
pub fn cloned_or_null(j: Option<&Json>) -> (r: Json)
    ensures
        r@ == or_null(opt_ref(j)),
{
    match j {
        Some(j) => j.clone(),
        None => Json::Null,
    }
}

/// An object of one member.
pub fn object1(k: &str, v: Json) -> (r: Json)
    ensures
        r@ == JsonView::Object(seq![(k@, v@)]),
{
    broadcast use group_json_view;

    let mut m: Vec<(String, Json)> = Vec::new();
    m.push((k.to_string(), v));
    assert(members_view(m@) =~= seq![(k@, v@)]);
    Json::Object(m)
}

/// An object of three members.
pub fn object3(k1: &str, v1: Json, k2: &str, v2: Json, k3: &str, v3: Json) -> (r: Json)
    ensures
        r@ == JsonView::Object(seq![(k1@, v1@), (k2@, v2@), (k3@, v3@)]),
{
    broadcast use group_json_view;

    let mut m: Vec<(String, Json)> = Vec::new();
    m.push((k1.to_string(), v1));
    m.push((k2.to_string(), v2));
    m.push((k3.to_string(), v3));
    assert(members_view(m@) =~= seq![(k1@, v1@), (k2@, v2@), (k3@, v3@)]);
    Json::Object(m)
}

pub fn empty_object() -> (r: Json)
    ensures
        r@ == JsonView::Object(Seq::empty()),
{
    broadcast use group_json_view;

    let m: Vec<(String, Json)> = Vec::new();
    assert(members_view(m@) =~= Seq::empty());
    Json::Object(m)
}

/// An object of two members.
pub fn object2(k1: &str, v1: Json, k2: &str, v2: Json) -> (r: Json)
    ensures
        r@ == JsonView::Object(seq![(k1@, v1@), (k2@, v2@)]),
{
    broadcast use group_json_view;

    let mut m: Vec<(String, Json)> = Vec::new();
    m.push((k1.to_string(), v1));
    m.push((k2.to_string(), v2));
    assert(members_view(m@) =~= seq![(k1@, v1@), (k2@, v2@)]);
    Json::Object(m)
}

// ---------------------------------------------------------------------------
// Laws
// ---------------------------------------------------------------------------

/// A member of an object is found under its key, unless one before it has the same key.
pub proof fn law_first_member_is_found(m: Seq<(Seq<char>, JsonView)>, i: int)
    requires
        0 <= i < m.len(),
        forall|j: int| 0 <= j < i ==> (#[trigger] m[j]).0 != m[i].0,
    ensures
        lookup(m, m[i].0) == Some(m[i].1),
        JsonView::Object(m).get(m[i].0) == Some(m[i].1),
    decreases i,
{
    if i > 0 {
        assert(m[0].0 != m[i].0);
        let rest = m.drop_first();
        assert(rest[i - 1] == m[i]);
        assert forall|j: int| 0 <= j < i - 1 implies (#[trigger] rest[j]).0 != rest[i - 1].0 by {
            assert(rest[j] == m[j + 1]);
        }
        law_first_member_is_found(rest, i - 1);
    }
}

/// What is found under a key is there, and where nothing is found no member has the key.
pub proof fn law_found_member_is_there(m: Seq<(Seq<char>, JsonView)>, key: Seq<char>)
    ensures
        match lookup(m, key) {
            Some(v) => exists|i: int| 0 <= i < m.len() && #[trigger] m[i] == (key, v),
            None => forall|i: int| 0 <= i < m.len() ==> (#[trigger] m[i]).0 != key,
        },
        JsonView::Object(m).get(key) == lookup(m, key),
    decreases m.len(),
{
    if m.len() > 0 {
        let rest = m.drop_first();
        law_found_member_is_there(rest, key);
        if m[0].0 == key {
            assert(m[0] == (key, m[0].1));
        } else {
            match lookup(rest, key) {
                Some(v) => {
                    let i = choose|i: int| 0 <= i < rest.len() && #[trigger] rest[i] == (key, v);
                    assert(m[i + 1] == (key, v));
                },
                None => {
                    assert forall|i: int| 0 <= i < m.len() implies (#[trigger] m[i]).0 != key by {
                        if i > 0 {
                            assert(rest[i - 1] == m[i]);
                        }
                    }
                },
            }
        }
    }
}

/// Of several keys, the first one that is there counts.
pub proof fn law_first_key_counts(m: Seq<(Seq<char>, JsonView)>, keys: Seq<Seq<char>>, i: int)
    requires
        0 <= i <= keys.len(),
        forall|j: int| 0 <= j < i ==> lookup(m, #[trigger] keys[j]) is None,
        i < keys.len() ==> lookup(m, keys[i]) is Some,
    ensures
        lookup_first(m, keys) == if i < keys.len() {
            lookup(m, keys[i])
        } else {
            None
        },
        JsonView::Object(m).get_first(keys) == lookup_first(m, keys),
    decreases keys.len(),
{
    if keys.len() > 0 && i > 0 {
        assert(lookup(m, keys[0]) is None);
        let rest = keys.drop_first();
        assert forall|j: int| 0 <= j < i - 1 implies lookup(m, #[trigger] rest[j]) is None by {
            assert(rest[j] == keys[j + 1]);
        }
        if i < keys.len() {
            assert(rest[i - 1] == keys[i]);
        }
        law_first_key_counts(m, rest, i - 1);
    }
}

/// Of several keys, the first one whose member is a text counts.
pub proof fn law_first_text_counts(m: Seq<(Seq<char>, JsonView)>, keys: Seq<Seq<char>>, i: int)
    requires
        0 <= i <= keys.len(),
        forall|j: int| 0 <= j < i ==> !(lookup(m, #[trigger] keys[j]) matches Some(v) && v is Text),
        i < keys.len() ==> (lookup(m, keys[i]) matches Some(v) && v is Text),
    ensures
        first_text(m, keys) == if i < keys.len() {
            Some(lookup(m, keys[i])->0->Text_0)
        } else {
            None
        },
    decreases keys.len(),
{
    if keys.len() > 0 && i > 0 {
        assert(!(lookup(m, keys[0]) matches Some(v) && v is Text));
        let rest = keys.drop_first();
        assert forall|j: int| 0 <= j < i - 1 implies !(lookup(m, #[trigger] rest[j]) matches Some(v)
            && v is Text) by {
            assert(rest[j] == keys[j + 1]);
        }
        if i < keys.len() {
            assert(rest[i - 1] == keys[i]);
        }
        law_first_text_counts(m, rest, i - 1);
    }
}

/// What a value is read as: a text as its characters, an integer as its number where it fits,
/// and nothing as what it is not.
pub proof fn law_values_are_read_as_they_are(s: Seq<char>, b: bool, n: int, key: Seq<char>)
    ensures
        JsonView::Text(s).as_text() == Some(s),
        JsonView::Bool(b).as_bool() == Some(b),
        JsonView::Number(NumberView::Int(n)).as_u64() == if 0 <= n <= 0xffff_ffff_ffff_ffff {
            Some(n)
        } else {
            None
        },
        JsonView::Number(NumberView::Int(n)).as_i64() == if -0x8000_0000_0000_0000 <= n
            <= 0x7fff_ffff_ffff_ffff {
            Some(n)
        } else {
            None
        },
        JsonView::Text(s).get(key) is None,
        JsonView::Bool(b).as_text() is None,
        JsonView::Null.as_text() is None && JsonView::Null.as_bool() is None,
        JsonView::Number(NumberView::Decimal(s)).as_i64() is None,
        JsonView::Number(NumberView::Decimal(s)).as_u64() is None,
{
}

} // verus!
