//! JSON documents as plain values, and the trusted calls into `serde_json`.
use vstd::prelude::*;

use crate::digits;
use crate::text;
use crate::text::str_eq;

verus! {

/// A JSON document in mathematical form. A number is given by its canonical text.
pub enum JsonV {
    Null,
    Bool(bool),
    Num(Seq<char>),
    Str(Seq<char>),
    Arr(Seq<JsonV>),
    Obj(Map<Seq<char>, JsonV>),
}

/// A JSON document. The members of an object are listed in any order; where a name is
/// listed twice, the later member counts.
#[derive(Debug, PartialEq)]
pub enum Json {
    Null,
    Bool(bool),
    Num(serde_json::Number),
    Str(String),
    Arr(Vec<Json>),
    Obj(Vec<(String, Json)>),
}

impl View for Json {
    type V = JsonV;

    open spec fn view(&self) -> JsonV {
        json_view(*self)
    }
}

/// The document that an executable value stands for.
pub open spec fn json_view(j: Json) -> JsonV
    decreases j,
{
    match j {
        Json::Null => JsonV::Null,
        Json::Bool(b) => JsonV::Bool(b),
        Json::Num(n) => JsonV::Num(number_text(n)),
        Json::Str(s) => JsonV::Str(s@),
        Json::Arr(items) => JsonV::Arr(items_view(items@)),
        Json::Obj(pairs) => JsonV::Obj(pairs_view(pairs@)),
    }
}

/// The elements of an array, each by its view.
pub open spec fn items_view(items: Seq<Json>) -> Seq<JsonV>
    decreases items,
{
    if items.len() == 0 {
        Seq::empty()
    } else {
        items_view(items.subrange(0, items.len() - 1)).push(json_view(items[items.len() - 1]))
    }
}

/// The members of an object, each by its view; the later of two members of one name counts.
pub open spec fn pairs_view(pairs: Seq<(String, Json)>) -> Map<Seq<char>, JsonV>
    decreases pairs,
{
    if pairs.len() == 0 {
        Map::empty()
    } else {
        let last = pairs[pairs.len() - 1];
        pairs_view(pairs.subrange(0, pairs.len() - 1)).insert(last.0@, json_view(last.1))
    }
}

/// Appending an element appends its view.
pub proof fn lemma_items_push(items: Seq<Json>, x: Json)
    ensures
        items_view(items.push(x)) == items_view(items).push(json_view(x)),
{
    assert(items.push(x).subrange(0, items.len() as int) =~= items);
}

/// The view of an array has the views of its elements, place by place.
pub proof fn lemma_items_index(items: Seq<Json>)
    ensures
        items_view(items).len() == items.len(),
        forall|i: int|
            0 <= i < items.len() ==> #[trigger] items_view(items)[i] == json_view(items[i]),
    decreases items.len(),
{
    if items.len() > 0 {
        let init = items.subrange(0, items.len() - 1);
        lemma_items_index(init);
        assert forall|i: int| 0 <= i < items.len() implies #[trigger] items_view(items)[i]
            == json_view(items[i]) by {
            if i < items.len() - 1 {
                assert(items_view(init)[i] == json_view(init[i]));
            }
        }
    }
}

/// Appending a member inserts it.
pub proof fn lemma_pairs_push(pairs: Seq<(String, Json)>, x: (String, Json))
    ensures
        pairs_view(pairs.push(x)) == pairs_view(pairs).insert(x.0@, json_view(x.1)),
{
    assert(pairs.push(x).subrange(0, pairs.len() as int) =~= pairs);
}

/// A name's value is that of its last member.
proof fn lemma_pairs_last(pairs: Seq<(String, Json)>, key: Seq<char>, at: int)
    requires
        0 <= at < pairs.len(),
        pairs[at].0@ == key,
        forall|j: int| at < j < pairs.len() ==> #[trigger] pairs[j].0@ != key,
    ensures
        pairs_view(pairs).contains_key(key),
        pairs_view(pairs)[key] == json_view(pairs[at].1),
    decreases pairs.len(),
{
    let init = pairs.subrange(0, pairs.len() - 1);
    if at < pairs.len() - 1 {
        assert(init[at] == pairs[at]);
        assert forall|j: int| at < j < init.len() implies #[trigger] init[j].0@ != key by {
            assert(init[j] == pairs[j]);
        }
        lemma_pairs_last(init, key, at);
        assert(pairs[pairs.len() - 1].0@ != key);
    }
}

/// A name without a member is absent.
proof fn lemma_pairs_absent(pairs: Seq<(String, Json)>, key: Seq<char>)
    requires
        forall|j: int| 0 <= j < pairs.len() ==> #[trigger] pairs[j].0@ != key,
    ensures
        !pairs_view(pairs).contains_key(key),
    decreases pairs.len(),
{
    if pairs.len() > 0 {
        let init = pairs.subrange(0, pairs.len() - 1);
        assert forall|j: int| 0 <= j < init.len() implies #[trigger] init[j].0@ != key by {
            assert(init[j] == pairs[j]);
        }
        lemma_pairs_absent(init, key);
        assert(pairs[pairs.len() - 1].0@ != key);
    }
}

// ---------------------------------------------------------------------------
// serde_json
// ---------------------------------------------------------------------------

#[verifier::external_type_specification]
#[verifier::external_body]
pub struct ExValue(serde_json::Value);

#[verifier::external_type_specification]
#[verifier::external_body]
pub struct ExNumber(serde_json::Number);

/// What a `serde_json::Value` holds.
pub uninterp spec fn value_json(v: serde_json::Value) -> JsonV;

/// The text that `serde_json` prints for a number.
pub uninterp spec fn number_text(n: serde_json::Number) -> Seq<char>;

/// What `serde_json::from_slice` reads from bytes; `None` where it reports an error.
pub uninterp spec fn parsed_json(bytes: Seq<u8>) -> Option<JsonV>;

/// The compact text that `serde_json` prints for a document.
pub uninterp spec fn json_string(j: JsonV) -> Seq<char>;

/// The indented text that `serde_json` prints for a document.
pub uninterp spec fn json_string_pretty(j: JsonV) -> Seq<char>;

/// The outermost layer of a `serde_json::Value`.
enum Layer {
    Null,
    Bool(bool),
    Number(serde_json::Number),
    Text(String),
    Array(Vec<serde_json::Value>),
    Object(Vec<(String, serde_json::Value)>),
}

/// The document whose outermost layer is `l`.
spec fn layer_json(l: Layer) -> JsonV {
    match l {
        Layer::Null => JsonV::Null,
        Layer::Bool(b) => JsonV::Bool(b),
        Layer::Number(n) => JsonV::Num(number_text(n)),
        Layer::Text(s) => JsonV::Str(s@),
        Layer::Array(items) => JsonV::Arr(
            Seq::new(items@.len(), |i: int| value_json(items@[i])),
        ),
        Layer::Object(members) => JsonV::Obj(members_json(members@)),
    }
}

/// The members of an object; the later of two members of one name counts.
spec fn members_json(members: Seq<(String, serde_json::Value)>) -> Map<Seq<char>, JsonV>
    decreases members.len(),
{
    if members.len() == 0 {
        Map::empty()
    } else {
        members_json(members.drop_last()).insert(members.last().0@, value_json(members.last().1))
    }
}

/// No name comes twice.
spec fn distinct_names(members: Seq<(String, serde_json::Value)>) -> bool {
    forall|a: int, b: int|
        0 <= a < b < members.len() ==> #[trigger] members[a].0@ != #[trigger] members[b].0@
}

/// `serde_json::from_slice`: reads a document, `None` where the bytes are not one.
#[verifier::external_body]
fn parse_value(bytes: &[u8]) -> (r: Option<serde_json::Value>)
    ensures
        r is Some <==> parsed_json(bytes@) is Some,
        r matches Some(v) ==> parsed_json(bytes@) == Some(value_json(v)),
{
    serde_json::from_slice(bytes).ok()
}

/// Tells the variants of a `serde_json::Value` apart and hands out what each holds.
/// An object's members come out of a map, so no name comes twice.
#[verifier::external_body]
fn open_value(v: serde_json::Value) -> (r: Layer)
    ensures
        value_json(v) == layer_json(r),
        r matches Layer::Object(members) ==> distinct_names(members@),
{
    match v {
        serde_json::Value::Null => Layer::Null,
        serde_json::Value::Bool(b) => Layer::Bool(b),
        serde_json::Value::Number(n) => Layer::Number(n),
        serde_json::Value::String(s) => Layer::Text(s),
        serde_json::Value::Array(items) => Layer::Array(items),
        serde_json::Value::Object(members) => Layer::Object(members.into_iter().collect()),
    }
}

/// Builds the `serde_json::Value` of a given outermost layer. Members go into a map in
/// order, so a later member of the same name replaces an earlier one.
#[verifier::external_body]
fn close_value(l: Layer) -> (r: serde_json::Value)
    ensures
        value_json(r) == layer_json(l),
{
    match l {
        Layer::Null => serde_json::Value::Null,
        Layer::Bool(b) => serde_json::Value::Bool(b),
        Layer::Number(n) => serde_json::Value::Number(n),
        Layer::Text(s) => serde_json::Value::String(s),
        Layer::Array(items) => serde_json::Value::Array(items),
        Layer::Object(members) => serde_json::Value::Object(members.into_iter().collect()),
    }
}

/// `Value::to_string`: the compact text of a document.
#[verifier::external_body]
fn print_value(v: &serde_json::Value) -> (r: String)
    ensures
        r@ == json_string(value_json(*v)),
{
    v.to_string()
}

/// `serde_json::to_string_pretty`: the indented text of a document. A `Value` always has one.
#[verifier::external_body]
fn print_value_pretty(v: &serde_json::Value) -> (r: String)
    ensures
        r@ == json_string_pretty(value_json(*v)),
{
    serde_json::to_string_pretty(v).unwrap_or_default()
}

/// `Number::as_i64`: the number itself where it is an integer that fits, that is, where its
/// text is the decimal text of an `i64`.
#[verifier::external_body]
fn number_as_i64(n: &serde_json::Number) -> (r: Option<i64>)
    ensures
        r matches Some(i) ==> number_text(*n) == digits::dec(i as int),
        r is None ==> forall|i: i64| number_text(*n) != #[trigger] digits::dec(i as int),
{
    n.as_i64()
}

/// `Number::from`: the number of an integer, printed in decimal.
#[verifier::external_body]
fn number_from_i64(i: i64) -> (r: serde_json::Number)
    ensures
        number_text(r) == digits::dec(i as int),
{
    serde_json::Number::from(i)
}

/// `Number::clone`: the same number.
pub assume_specification[ <serde_json::Number as std::clone::Clone>::clone ](
    n: &serde_json::Number,
) -> (r: serde_json::Number)
    ensures
        r == *n,
;

proof fn lemma_members_push(
    members: Seq<(String, serde_json::Value)>,
    x: (String, serde_json::Value),
)
    ensures
        members_json(members.push(x)) == members_json(members).insert(x.0@, value_json(x.1)),
{
    assert(members.push(x).drop_last() =~= members);
}

/// Each member that comes out of a value of an object is smaller than the object.
proof fn lemma_member_decreases(members: Seq<(String, serde_json::Value)>, i: int)
    requires
        0 <= i < members.len(),
        forall|a: int, b: int|
            0 <= a < b < members.len() ==> #[trigger] members[a].0@ != #[trigger] members[b].0@,
    ensures
        members_json(members).contains_key(members[i].0@),
        members_json(members)[members[i].0@] == value_json(members[i].1),
    decreases members.len(),
{
    let init = members.drop_last();
    if i < members.len() - 1 {
        assert(init[i] == members[i]);
        assert forall|a: int, b: int| 0 <= a < b < init.len() implies #[trigger] init[a].0@
            != #[trigger] init[b].0@ by {
            assert(members[a].0@ != members[b].0@);
        }
        lemma_member_decreases(init, i);
        assert(members[i].0@ != members[members.len() - 1].0@);
    }
}

proof fn lemma_members_finite(members: Seq<(String, serde_json::Value)>)
    ensures
        members_json(members).dom().finite(),
    decreases members.len(),
{
    if members.len() > 0 {
        lemma_members_finite(members.drop_last());
    }
}

fn json_of_value(v: serde_json::Value) -> (r: Json)
    ensures
        r@ == value_json(v),
    decreases value_json(v),
{
    let ghost whole = value_json(v);
    match open_value(v) {
        Layer::Null => Json::Null,
        Layer::Bool(b) => Json::Bool(b),
        Layer::Number(n) => Json::Num(n),
        Layer::Text(s) => Json::Str(s),
        Layer::Array(items) => {
            let ghost all = items@;
            let mut out: Vec<Json> = Vec::new();
            for x in it: items
                invariant
                    it.seq() == all,
                    whole == value_json(v),
                    whole == JsonV::Arr(Seq::new(all.len(), |i: int| value_json(all[i]))),
                    items_view(out@) =~= Seq::new(it.index() as nat, |i: int| value_json(all[i])),
            {
                assert(x == all[it.index() as int]);
                assert(whole->Arr_0[it.index() as int] == value_json(x));
                let j = json_of_value(x);
                proof {
                    lemma_items_push(out@, j);
                }
                out.push(j);
            }
            Json::Arr(out)
        },
        Layer::Object(members) => {
            let ghost all = members@;
            let mut out: Vec<(String, Json)> = Vec::new();
            proof {
                lemma_members_finite(all);
            }
            for x in it: members
                invariant
                    it.seq() == all,
                    whole == value_json(v),
                    whole == JsonV::Obj(members_json(all)),
                    members_json(all).dom().finite(),
                    distinct_names(all),
                    pairs_view(out@) == members_json(all.subrange(0, it.index() as int)),
            {
                let ghost k: int = it.index() as int;
                assert(x == all[k]);
                proof {
                    lemma_member_decreases(all, k);
                    assert(all.subrange(0, k + 1) =~= all.subrange(0, k).push(all[k]));
                    lemma_members_push(all.subrange(0, k), all[k]);
                    assert(decreases_to!(whole => whole->Obj_0[x.0@]));
                }
                let j = json_of_value(x.1);
                proof {
                    lemma_pairs_push(out@, (x.0, j));
                }
                out.push((x.0, j));
            }
            assert(all.subrange(0, all.len() as int) =~= all);
            Json::Obj(out)
        },
    }
}

fn value_of_json(j: &Json) -> (r: serde_json::Value)
    ensures
        value_json(r) == j@,
    decreases *j,
{
    match j {
        Json::Null => close_value(Layer::Null),
        Json::Bool(b) => close_value(Layer::Bool(*b)),
        Json::Num(n) => close_value(Layer::Number(n.clone())),
        Json::Str(s) => close_value(Layer::Text(s.clone())),
        Json::Arr(items) => {
            let mut out: Vec<serde_json::Value> = Vec::new();
            let mut i: usize = 0;
            while i < items.len()
                invariant
                    i <= items@.len(),
                    *j == Json::Arr(*items),
                    out@.len() == i,
                    forall|k: int| 0 <= k < i ==> #[trigger] value_json(out@[k]) == items@[k]@,
                decreases items@.len() - i,
            {
                assert(decreases_to!(*j => (*j)->Arr_0));
                assert(decreases_to!(items => items@));
                assert(decreases_to!(items@ => items@[i as int]));
                out.push(value_of_json(&items[i]));
                i += 1;
            }
            proof {
                lemma_items_index(items@);
                assert(Seq::new(out@.len(), |k: int| value_json(out@[k])) =~= items_view(items@));
            }
            close_value(Layer::Array(out))
        },
        Json::Obj(pairs) => {
            let mut out: Vec<(String, serde_json::Value)> = Vec::new();
            let mut i: usize = 0;
            while i < pairs.len()
                invariant
                    i <= pairs@.len(),
                    *j == Json::Obj(*pairs),
                    members_json(out@) == pairs_view(pairs@.subrange(0, i as int)),
                decreases pairs@.len() - i,
            {
                assert(decreases_to!(*j => (*j)->Obj_0));
                assert(decreases_to!(pairs => pairs@));
                assert(decreases_to!(pairs@ => pairs@[i as int]));
                assert(decreases_to!(pairs@[i as int] => pairs@[i as int].1));
                let v = value_of_json(&pairs[i].1);
                let k = pairs[i].0.clone();
                proof {
                    lemma_members_push(out@, (k, v));
                    lemma_pairs_push(pairs@.subrange(0, i as int), pairs@[i as int]);
                    assert(pairs@.subrange(0, i + 1) =~= pairs@.subrange(0, i as int).push(
                        pairs@[i as int],
                    ));
                }
                out.push((k, v));
                i += 1;
            }
            assert(pairs@.subrange(0, pairs@.len() as int) =~= pairs@);
            close_value(Layer::Object(out))
        },
    }
}

/// Reads a document from bytes.
pub fn parse_json(bytes: &[u8]) -> (r: Option<Json>)
    ensures
        r is Some <==> parsed_json(bytes@) is Some,
        r matches Some(j) ==> parsed_json(bytes@) == Some(j@),
{
    match parse_value(bytes) {
        Some(v) => Some(json_of_value(v)),
        None => None,
    }
}

/// Reads a document from text.
pub fn parse_json_str(text: &str) -> (r: Option<Json>)
    ensures
        r is Some <==> parsed_text(text@) is Some,
        r matches Some(j) ==> parsed_text(text@) == Some(j@),
{
    parse_json(text.as_bytes())
}

/// The document that a text holds.
pub open spec fn parsed_text(text: Seq<char>) -> Option<JsonV> {
    parsed_json(vstd::utf8::encode_utf8(text))
}

/// The compact text of a document.
pub fn json_to_string(j: &Json) -> (r: String)
    ensures
        r@ == json_string(j@),
{
    print_value(&value_of_json(j))
}

/// The indented text of a document.
pub fn json_to_string_pretty(j: &Json) -> (r: String)
    ensures
        r@ == json_string_pretty(j@),
{
    print_value_pretty(&value_of_json(j))
}

// ---------------------------------------------------------------------------
// Reading
// ---------------------------------------------------------------------------

impl JsonV {
    /// The value of a member; null where there is none.
    pub open spec fn at(self, key: Seq<char>) -> JsonV {
        match self {
            JsonV::Obj(m) => if m.contains_key(key) {
                m[key]
            } else {
                JsonV::Null
            },
            _ => JsonV::Null,
        }
    }

    /// Whether this is an object with that member.
    pub open spec fn has(self, key: Seq<char>) -> bool {
        self is Obj && self->Obj_0.contains_key(key)
    }

    /// The text of a string.
    pub open spec fn as_str(self) -> Option<Seq<char>> {
        match self {
            JsonV::Str(s) => Some(s),
            _ => None,
        }
    }

    /// The text of a member that is a string.
    pub open spec fn str_at(self, key: Seq<char>) -> Option<Seq<char>> {
        self.at(key).as_str()
    }

    /// The value of a number that is an `i64`.
    pub open spec fn as_i64(self) -> Option<i64> {
        match self {
            JsonV::Num(t) => if exists|i: i64| t == #[trigger] digits::dec(i as int) {
                Some(choose|i: i64| t == #[trigger] digits::dec(i as int))
            } else {
                None
            },
            _ => None,
        }
    }

    /// The elements of an array; none where this is no array.
    pub open spec fn elements(self) -> Seq<JsonV> {
        match self {
            JsonV::Arr(items) => items,
            _ => Seq::empty(),
        }
    }
}

/// An integer is read back from its number.
pub proof fn lemma_as_i64(i: i64)
    ensures
        JsonV::Num(digits::dec(i as int)).as_i64() == Some(i),
{
    let j = choose|j: i64| digits::dec(i as int) == #[trigger] digits::dec(j as int);
    assert(digits::dec(i as int) == digits::dec(i as int));
    digits::lemma_dec_injective(i as int, j as int);
}

impl Json {
    fn find<'a>(pairs: &'a Vec<(String, Json)>, key: &str) -> (r: Option<&'a Json>)
        ensures
            r is Some <==> pairs_view(pairs@).contains_key(key@),
            r matches Some(j) ==> pairs_view(pairs@)[key@] == j@,
    {
        let mut i: usize = pairs.len();
        while i > 0
            invariant
                i <= pairs@.len(),
                forall|j: int| i <= j < pairs@.len() ==> #[trigger] pairs@[j].0@ != key@,
            decreases i,
        {
            i -= 1;
            if str_eq(pairs[i].0.as_str(), key) {
                proof {
                    lemma_pairs_last(pairs@, key@, i as int);
                }
                return Some(&pairs[i].1);
            }
        }
        proof {
            lemma_pairs_absent(pairs@, key@);
        }
        None
    }

    /// The value of a member.
    pub fn get<'a>(&'a self, key: &str) -> (r: Option<&'a Json>)
        ensures
            r is Some <==> self@.has(key@),
            r matches Some(j) ==> self@.at(key@) == j@,
            r is None ==> self@.at(key@) is Null,
    {
        match self {
            Json::Obj(pairs) => Self::find(pairs, key),
            _ => None,
        }
    }

    /// The value of a member; null where there is none.
    pub fn at<'a>(&'a self, key: &str) -> (r: &'a Json)
        ensures
            r@ == self@.at(key@),
    {
        match self.get(key) {
            Some(j) => j,
            None => &Json::Null,
        }
    }

    /// The text of a string.
    pub fn as_str<'a>(&'a self) -> (r: Option<&'a str>)
        ensures
            text::sview(r) == self@.as_str(),
    {
        match self {
            Json::Str(s) => Some(s.as_str()),
            _ => None,
        }
    }

    /// The text of a member that is a string.
    pub fn str_at<'a>(&'a self, key: &str) -> (r: Option<&'a str>)
        ensures
            text::sview(r) == self@.str_at(key@),
    {
        self.at(key).as_str()
    }

    /// The value of a number that is an `i64`.
    pub fn as_i64(&self) -> (r: Option<i64>)
        ensures
            r == self@.as_i64(),
    {
        match self {
            Json::Num(n) => {
                let r = number_as_i64(n);
                proof {
                    if r is Some {
                        lemma_as_i64(r->0);
                    }
                }
                r
            },
            _ => None,
        }
    }

    /// A copy of the document.
    pub fn copy(&self) -> (r: Json)
        ensures
            r@ == self@,
    {
        json_of_value(value_of_json(self))
    }
}

// ---------------------------------------------------------------------------
// Building
// ---------------------------------------------------------------------------

/// A string.
pub fn txt(s: &str) -> (r: Json)
    ensures
        r@ == JsonV::Str(s@),
{
    Json::Str(s.to_owned())
}

/// An integer.
pub fn num(i: i64) -> (r: Json)
    ensures
        r@ == JsonV::Num(digits::dec(i as int)),
{
    Json::Num(number_from_i64(i))
}

/// An object under construction.
pub struct Obj {
    members: Vec<(String, Json)>,
}

impl View for Obj {
    type V = Map<Seq<char>, JsonV>;

    closed spec fn view(&self) -> Map<Seq<char>, JsonV> {
        pairs_view(self.members@)
    }
}

impl Obj {
    /// The object without members.
    pub fn new() -> (r: Obj)
        ensures
            r@ == Map::<Seq<char>, JsonV>::empty(),
    {
        Obj { members: Vec::new() }
    }

    /// The object with one member more, or with another value for it.
    pub fn with(self, key: &str, value: Json) -> (r: Obj)
        ensures
            r@ == self@.insert(key@, value@),
    {
        let mut members = self.members;
        let k = key.to_owned();
        proof {
            lemma_pairs_push(members@, (k, value));
        }
        members.push((k, value));
        Obj { members }
    }

    /// The finished object.
    pub fn json(self) -> (r: Json)
        ensures
            r@ == JsonV::Obj(self@),
    {
        Json::Obj(self.members)
    }
}

/// An array under construction.
pub struct Arr {
    items: Vec<Json>,
}

impl View for Arr {
    type V = Seq<JsonV>;

    closed spec fn view(&self) -> Seq<JsonV> {
        items_view(self.items@)
    }
}

impl Arr {
    /// The array without elements.
    pub fn new() -> (r: Arr)
        ensures
            r@ == Seq::<JsonV>::empty(),
    {
        Arr { items: Vec::new() }
    }

    /// The array with one element more.
    pub fn with(self, value: Json) -> (r: Arr)
        ensures
            r@ == self@.push(value@),
    {
        let mut items = self.items;
        proof {
            lemma_items_push(items@, value);
        }
        items.push(value);
        Arr { items }
    }

    /// Whether the array has no elements.
    pub fn is_empty(&self) -> (r: bool)
        ensures
            r == (self@.len() == 0),
    {
        proof {
            lemma_items_index(self.items@);
        }
        self.items.len() == 0
    }

    /// The finished array.
    pub fn json(self) -> (r: Json)
        ensures
            r@ == JsonV::Arr(self@),
    {
        Json::Arr(self.items)
    }
}

} // verus!
