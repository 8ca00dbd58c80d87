//! JSON values: a tree of plain values, read and written by `serde_json`.

use vstd::prelude::*;
use crate::number::signed_decimal;
use crate::text::{outcome, push_text, same};

verus! {

/// A number of `serde_json`, carried as it was read.
#[verifier::external_type_specification]
#[verifier::external_body]
pub struct ExNumber(serde_json::Number);

/// A number of a JSON text, with its decimal notation.
pub struct JsonNumber {
    text: String,
    number: serde_json::Number,
}

impl View for JsonNumber {
    type V = Seq<char>;

    closed spec fn view(&self) -> Seq<char> {
        self.text@
    }
}

/// A JSON value. The members of an object stand in the order of their keys.
pub enum Json {
    Null,
    Bool(bool),
    Number(JsonNumber),
    Text(String),
    Array(Vec<Json>),
    Object(Vec<(String, Json)>),
}

/// The mathematical form of a JSON value.
pub enum JsonView {
    Null,
    Bool(bool),
    Number(Seq<char>),
    Text(Seq<char>),
    Array(Seq<JsonView>),
    Object(Seq<(Seq<char>, JsonView)>),
}

/// The mathematical form of `json`.
pub open spec fn json_view(json: Json) -> JsonView
    decreases json,
{
    match json {
        Json::Null => JsonView::Null,
        Json::Bool(b) => JsonView::Bool(b),
        Json::Number(n) => JsonView::Number(n@),
        Json::Text(text) => JsonView::Text(text@),
        Json::Array(items) => JsonView::Array(
            Seq::new(
                items@.len(),
                |i: int|
                    if 0 <= i < items@.len() {
                        json_view(items@[i])
                    } else {
                        JsonView::Null
                    },
            ),
        ),
        Json::Object(members) => JsonView::Object(
            Seq::new(
                members@.len(),
                |i: int|
                    if 0 <= i < members@.len() {
                        (members@[i].0@, json_view(members@[i].1))
                    } else {
                        (Seq::empty(), JsonView::Null)
                    },
            ),
        ),
    }
}

impl DeepView for Json {
    type V = JsonView;

    open spec fn deep_view(&self) -> JsonView {
        json_view(*self)
    }
}

/// What `serde_json::from_str` reads from a text as a `serde_json::Value`: the
/// value, or the text of the error.
pub uninterp spec fn parsed_json(text: Seq<char>) -> Result<JsonView, Seq<char>>;

/// What `serde_json::Value` displays for a value: its compact notation.
pub uninterp spec fn rendered_json(json: JsonView) -> Seq<char>;

/// Moves a `serde_json::Value` into a [`Json`], variant for variant.
#[verifier::external_body]
fn from_value(value: serde_json::Value) -> (json: Json) {
    match value {
        serde_json::Value::Null => Json::Null,
        serde_json::Value::Bool(b) => Json::Bool(b),
        serde_json::Value::Number(number) => Json::Number(
            JsonNumber { text: number.to_string(), number },
        ),
        serde_json::Value::String(text) => Json::Text(text),
        serde_json::Value::Array(items) => Json::Array(items.into_iter().map(from_value).collect()),
        serde_json::Value::Object(members) => Json::Object(
            members.into_iter().map(|(key, value)| (key, from_value(value))).collect(),
        ),
    }
}

/// Copies a [`Json`] into a `serde_json::Value`, variant for variant.
#[verifier::external_body]
fn to_value(json: &Json) -> (value: serde_json::Value) {
    match json {
        Json::Null => serde_json::Value::Null,
        Json::Bool(b) => serde_json::Value::Bool(*b),
        Json::Number(n) => serde_json::Value::Number(n.number.clone()),
        Json::Text(text) => serde_json::Value::String(text.clone()),
        Json::Array(items) => serde_json::Value::Array(items.iter().map(to_value).collect()),
        Json::Object(members) => serde_json::Value::Object(
            members.iter().map(|(key, value)| (key.clone(), to_value(value))).collect(),
        ),
    }
}

/// A value of `serde_json`, passed from its reader to the library's own type.
#[verifier::external_type_specification]
#[verifier::external_body]
pub struct ExValue(serde_json::Value);

/// `serde_json::from_str` reads a JSON text. What it gives is a function of the
/// text alone; its grammar is not restated here.
#[verifier::external_body]
pub(crate) fn parse_json(text: &str) -> (r: Result<Json, String>)
    ensures
        outcome(r) == parsed_json(text@),
{
    serde_json::from_str::<serde_json::Value>(text).map(from_value).map_err(|e| e.to_string())
}

/// What `serde_json::from_slice` reads from bytes as a `serde_json::Value`: the value, or
/// the text of the error.
pub uninterp spec fn parsed_json_bytes(bytes: Seq<u8>) -> Result<JsonView, Seq<char>>;

/// `serde_json::from_slice` reads a JSON text that is given as bytes. What it gives is a
/// function of the bytes alone; its grammar is not restated here.
#[verifier::external_body]
pub(crate) fn parse_json_bytes(bytes: &[u8]) -> (r: Result<Json, String>)
    ensures
        outcome(r) == parsed_json_bytes(bytes@),
{
    serde_json::from_slice::<serde_json::Value>(bytes).map(from_value).map_err(|e| e.to_string())
}

/// `serde_json::Value` displays its compact notation, with the members of each
/// object in the order of their keys. It is a function of the value alone.
#[verifier::external_body]
pub(crate) fn render_json(json: &Json) -> (text: String)
    ensures
        text@ == rendered_json(json.deep_view()),
{
    to_value(json).to_string()
}

/// `serde_json::Number::from` holds an integer as it is and displays it in
/// decimal notation.
#[verifier::external_body]
fn integer(n: i64) -> (r: JsonNumber)
    ensures
        r@ == signed_decimal(n as int),
{
    let number = serde_json::Number::from(n);
    JsonNumber { text: number.to_string(), number }
}

/// A JSON number that holds an integer.
pub fn json_integer(n: i64) -> (r: Json)
    ensures
        r.deep_view() == JsonView::Number(signed_decimal(n as int)),
{
    Json::Number(integer(n))
}

pub fn json_text(text: &str) -> (r: Json)
    ensures
        r.deep_view() == JsonView::Text(text@),
{
    Json::Text(text.to_owned())
}

pub fn json_bool(b: bool) -> (r: Json)
    ensures
        r.deep_view() == JsonView::Bool(b),
{
    Json::Bool(b)
}

/// A member of an object.
pub fn field(key: &str, value: Json) -> (r: (String, Json))
    ensures
        r.deep_view() == (key@, value.deep_view()),
{
    (key.to_owned(), value)
}

pub fn json_object(members: Vec<(String, Json)>) -> (r: Json)
    ensures
        r.deep_view() == JsonView::Object(members.deep_view()),
{
    let r = Json::Object(members);
    assert(r.deep_view()->Object_0 =~= members.deep_view());
    r
}

pub fn json_array(items: Vec<Json>) -> (r: Json)
    ensures
        r.deep_view() == JsonView::Array(items.deep_view()),
{
    let r = Json::Array(items);
    assert(r.deep_view()->Array_0 =~= items.deep_view());
    r
}

/// A JSON string, or null where there is none.
pub open spec fn text_or_null(text: Option<Seq<char>>) -> JsonView {
    match text {
        Some(text) => JsonView::Text(text),
        None => JsonView::Null,
    }
}

pub fn json_text_or_null(text: &Option<String>) -> (r: Json)
    ensures
        r.deep_view() == text_or_null(text.deep_view()),
{
    match text {
        Some(text) => Json::Text(text.clone()),
        None => Json::Null,
    }
}

/// The strings of a list as a JSON array.
pub open spec fn text_array(texts: Seq<Seq<char>>) -> JsonView {
    JsonView::Array(texts.map_values(|text: Seq<char>| JsonView::Text(text)))
}

pub fn json_text_array(texts: &Vec<String>) -> (r: Json)
    ensures
        r.deep_view() == text_array(texts.deep_view()),
{
    let mut items: Vec<Json> = Vec::new();
    let mut i: usize = 0;
    while i < texts.len()
        invariant
            i <= texts@.len(),
            items@.len() == i,
            forall|j: int|
                0 <= j < i ==> json_view(#[trigger] items@[j]) == JsonView::Text(texts@[j]@),
        decreases texts.len() - i,
    {
        items.push(Json::Text(texts[i].clone()));
        i = i + 1;
    }
    let r = Json::Array(items);
    assert(r.deep_view()->Array_0 =~= text_array(texts.deep_view())->Array_0);
    r
}

/// The index of the first member with the key, from `i` on.
pub open spec fn member_index(members: Seq<(Seq<char>, JsonView)>, key: Seq<char>, i: int) -> Option<
    int,
>
    decreases members.len() - i,
{
    if i >= members.len() || i < 0 {
        None
    } else if members[i].0 == key {
        Some(i)
    } else {
        member_index(members, key, i + 1)
    }
}

/// The member of an object with the key. A value that is no object has none.
pub open spec fn member(json: JsonView, key: Seq<char>) -> Option<JsonView> {
    match json {
        JsonView::Object(members) => match member_index(members, key, 0) {
            Some(i) => Some(members[i].1),
            None => None,
        },
        _ => None,
    }
}

/// The string that a value is.
pub open spec fn as_text(json: JsonView) -> Option<Seq<char>> {
    match json {
        JsonView::Text(text) => Some(text),
        _ => None,
    }
}

pub open spec fn as_bool(json: JsonView) -> Option<bool> {
    match json {
        JsonView::Bool(b) => Some(b),
        _ => None,
    }
}

/// The string member of an object with the key.
pub open spec fn text_member(json: JsonView, key: Seq<char>) -> Option<Seq<char>> {
    match member(json, key) {
        Some(value) => as_text(value),
        None => None,
    }
}

pub open spec fn bool_member(json: JsonView, key: Seq<char>) -> Option<bool> {
    match member(json, key) {
        Some(value) => as_bool(value),
        None => None,
    }
}

/// The strings among the items of an array; of any other value, none.
pub open spec fn text_items(json: JsonView) -> Seq<Seq<char>> {
    match json {
        JsonView::Array(items) => texts_among(items),
        _ => Seq::empty(),
    }
}

pub open spec fn texts_among(items: Seq<JsonView>) -> Seq<Seq<char>>
    decreases items.len(),
{
    if items.len() == 0 {
        Seq::empty()
    } else {
        let head = texts_among(items.drop_last());
        match items.last() {
            JsonView::Text(text) => head.push(text),
            _ => head,
        }
    }
}

/// The strings of the array member with the key.
pub open spec fn text_items_member(json: JsonView, key: Seq<char>) -> Seq<Seq<char>> {
    match member(json, key) {
        Some(value) => text_items(value),
        None => Seq::empty(),
    }
}

impl Json {
    /// The member of an object with the key.
    pub fn get<'a>(&'a self, key: &str) -> (r: Option<&'a Json>)
        ensures
            r.deep_view() == member(self.deep_view(), key@),
    {
        let members = match self {
            Json::Object(members) => members,
            _ => {
                return None;
            },
        };
        let ghost views = self.deep_view()->Object_0;
        let mut i: usize = 0;
        while i < members.len()
            invariant
                i <= members@.len(),
                *self == Json::Object(*members),
                views == self.deep_view()->Object_0,
                member_index(views, key@, 0) == member_index(views, key@, i as int),
            decreases members.len() - i,
        {
            assert(views[i as int] == (members@[i as int].0@, json_view(members@[i as int].1)));
            if same(members[i].0.as_str(), key) {
                return Some(&members[i].1);
            }
            i = i + 1;
        }
        None
    }

    pub fn text<'a>(&'a self) -> (r: Option<&'a str>)
        ensures
            r.deep_view() == as_text(self.deep_view()),
    {
        match self {
            Json::Text(text) => Some(text.as_str()),
            _ => None,
        }
    }

    pub fn boolean(&self) -> (r: Option<bool>)
        ensures
            r == as_bool(self.deep_view()),
    {
        match self {
            Json::Bool(b) => Some(*b),
            _ => None,
        }
    }

    /// The strings among the items of an array.
    pub fn texts(&self) -> (r: Vec<String>)
        ensures
            r.deep_view() == text_items(self.deep_view()),
    {
        let mut r: Vec<String> = Vec::new();
        let items = match self {
            Json::Array(items) => items,
            _ => {
                assert(r.deep_view() =~= Seq::empty());
                return r;
            },
        };
        let ghost views = self.deep_view()->Array_0;
        let mut i: usize = 0;
        assert(r.deep_view() =~= Seq::empty());
        while i < items.len()
            invariant
                i <= items@.len(),
                *self == Json::Array(*items),
                views == self.deep_view()->Array_0,
                r.deep_view() == texts_among(views.take(i as int)),
            decreases items.len() - i,
        {
            proof {
                assert(views[i as int] == json_view(items@[i as int]));
                assert(views.take(i + 1).drop_last() =~= views.take(i as int));
                assert(views.take(i + 1).last() == views[i as int]);
            }
            if let Json::Text(text) = &items[i] {
                push_text(&mut r, text.clone());
            }
            i = i + 1;
        }
        assert(views.take(i as int) =~= views);
        r
    }

    /// The string member of an object with the key.
    pub fn get_text<'a>(&'a self, key: &str) -> (r: Option<&'a str>)
        ensures
            r.deep_view() == text_member(self.deep_view(), key@),
    {
        match self.get(key) {
            Some(value) => value.text(),
            None => None,
        }
    }

    pub fn get_bool(&self, key: &str) -> (r: Option<bool>)
        ensures
            r == bool_member(self.deep_view(), key@),
    {
        match self.get(key) {
            Some(value) => value.boolean(),
            None => None,
        }
    }

    /// The strings of the array member with the key.
    pub fn get_texts(&self, key: &str) -> (r: Vec<String>)
        ensures
            r.deep_view() == text_items_member(self.deep_view(), key@),
    {
        match self.get(key) {
            Some(value) => value.texts(),
            None => {
                let r: Vec<String> = Vec::new();
                assert(r.deep_view() =~= Seq::empty());
                r
            },
        }
    }
}

impl JsonNumber {
    /// The number in decimal notation.
    pub fn notation(&self) -> (r: String)
        ensures
            r@ == self@,
    {
        self.text.clone()
    }
}

/// The value of a key is that of the first member with the key; where there is none, and in
/// what is no object, there is no value.
pub proof fn the_first_member_counts(members: Seq<(Seq<char>, JsonView)>, key: Seq<char>, from: int)
    requires
        0 <= from,
    ensures
        match member_index(members, key, from) {
            Some(i) => from <= i < members.len() && members[i].0 == key && forall|j: int|
                from <= j < i ==> (#[trigger] members[j]).0 != key,
            None => forall|j: int| from <= j < members.len() ==> (#[trigger] members[j]).0 != key,
        },
    decreases members.len() - from,
{
    if from < members.len() && members[from].0 != key {
        the_first_member_counts(members, key, from + 1);
    }
}

/// The texts of a list are the items that are texts, in their order; other items are left
/// out.
pub proof fn texts_are_taken_in_order(items: Seq<JsonView>)
    ensures
        texts_among(items).len() <= items.len(),
        forall|i: int|
            0 <= i < items.len() && (#[trigger] items[i]) is Text ==> texts_among(items).contains(
                items[i]->Text_0,
            ),
        (forall|i: int| 0 <= i < items.len() ==> (#[trigger] items[i]) is Text) ==> texts_among(
            items,
        ) == items.map_values(|item: JsonView| item->Text_0),
    decreases items.len(),
{
    if items.len() > 0 {
        let head = items.drop_last();
        let last = items.len() - 1;
        texts_are_taken_in_order(head);
        assert forall|i: int| 0 <= i < items.len() && (#[trigger] items[i]) is Text implies texts_among(
            items,
        ).contains(items[i]->Text_0) by {
            if i < last {
                assert(head[i] == items[i]);
                let k = choose|k: int|
                    0 <= k < texts_among(head).len() && texts_among(head)[k] == head[i]->Text_0;
                assert(texts_among(items)[k] == items[i]->Text_0);
            } else {
                assert(texts_among(items).last() == items[i]->Text_0);
            }
        }
        if forall|i: int| 0 <= i < items.len() ==> (#[trigger] items[i]) is Text {
            assert forall|i: int| 0 <= i < head.len() implies (#[trigger] head[i]) is Text by {
                assert(items[i] is Text);
            }
            assert(items[last] is Text);
            assert(texts_among(items) =~= items.map_values(|item: JsonView| item->Text_0));
        }
    } else {
        assert(texts_among(items) =~= items.map_values(|item: JsonView| item->Text_0));
    }
}

} // verus!
