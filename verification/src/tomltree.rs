//! TOML values: a tree of plain values, read and written by `toml`.

use vstd::prelude::*;
use crate::env::text_fits;
use crate::text::{outcome, same};

verus! {

/// A value of `toml`, passed between it and the library's own type.
#[verifier::external_type_specification]
#[verifier::external_body]
pub struct ExTomlValue(toml::Value);

/// A number with a fraction, or a date: carried as it was read, with its notation.
pub struct TomlAtom {
    notation: String,
    value: toml::Value,
}

impl View for TomlAtom {
    type V = Seq<char>;

    closed spec fn view(&self) -> Seq<char> {
        self.notation@
    }
}

/// A TOML value. The entries of a table stand in the order of their keys.
pub enum Toml {
    Text(String),
    Integer(i64),
    Boolean(bool),
    Atom(TomlAtom),
    Array(Vec<Toml>),
    Table(Vec<(String, Toml)>),
}

/// The mathematical form of a TOML value.
pub enum TomlView {
    Text(Seq<char>),
    Integer(i64),
    Boolean(bool),
    Atom(Seq<char>),
    Array(Seq<TomlView>),
    Table(Seq<(Seq<char>, TomlView)>),
}

/// The mathematical form of `value`.
pub open spec fn toml_view(value: Toml) -> TomlView
    decreases value,
{
    match value {
        Toml::Text(text) => TomlView::Text(text@),
        Toml::Integer(n) => TomlView::Integer(n),
        Toml::Boolean(b) => TomlView::Boolean(b),
        Toml::Atom(atom) => TomlView::Atom(atom@),
        Toml::Array(items) => TomlView::Array(
            Seq::new(
                items@.len(),
                |i: int|
                    if 0 <= i < items@.len() {
                        toml_view(items@[i])
                    } else {
                        TomlView::Boolean(false)
                    },
            ),
        ),
        Toml::Table(entries) => TomlView::Table(
            Seq::new(
                entries@.len(),
                |i: int|
                    if 0 <= i < entries@.len() {
                        (entries@[i].0@, toml_view(entries@[i].1))
                    } else {
                        (Seq::empty(), TomlView::Boolean(false))
                    },
            ),
        ),
    }
}

impl DeepView for Toml {
    type V = TomlView;

    open spec fn deep_view(&self) -> TomlView {
        toml_view(*self)
    }
}

/// What `toml::from_str` reads from a text as a table: its entries in the order of their
/// keys, or the text of the error.
pub uninterp spec fn parsed_toml(text: Seq<char>) -> Result<Seq<(Seq<char>, TomlView)>, Seq<char>>;

/// What `toml::to_string_pretty` writes for a table: a text, or the text of the error.
pub uninterp spec fn rendered_toml(entries: Seq<(Seq<char>, TomlView)>) -> Result<
    Seq<char>,
    Seq<char>,
>;

/// Moves a `toml::Value` into a [`Toml`], variant for variant.
#[verifier::external_body]
fn from_toml(value: toml::Value) -> (tree: Toml) {
    match value {
        toml::Value::String(text) => Toml::Text(text),
        toml::Value::Integer(n) => Toml::Integer(n),
        toml::Value::Boolean(b) => Toml::Boolean(b),
        toml::Value::Array(items) => Toml::Array(items.into_iter().map(from_toml).collect()),
        toml::Value::Table(entries) => Toml::Table(
            entries.into_iter().map(|(key, value)| (key, from_toml(value))).collect(),
        ),
        atom => Toml::Atom(TomlAtom { notation: atom.to_string(), value: atom }),
    }
}

/// Copies a [`Toml`] into a `toml::Value`, variant for variant.
#[verifier::external_body]
fn to_toml(tree: &Toml) -> (value: toml::Value) {
    match tree {
        Toml::Text(text) => toml::Value::String(text.clone()),
        Toml::Integer(n) => toml::Value::Integer(*n),
        Toml::Boolean(b) => toml::Value::Boolean(*b),
        Toml::Atom(atom) => atom.value.clone(),
        Toml::Array(items) => toml::Value::Array(items.iter().map(to_toml).collect()),
        Toml::Table(entries) => toml::Value::Table(
            entries.iter().map(|(key, value)| (key.clone(), to_toml(value))).collect(),
        ),
    }
}

/// `toml::from_str` reads a TOML text as a table. What it gives is a function of the
/// text alone; its grammar is not restated here.
#[verifier::external_body]
pub(crate) fn parse_toml(text: &str) -> (r: Result<Vec<(String, Toml)>, String>)
    ensures
        outcome(r) == parsed_toml(text@),
{
    toml::from_str::<toml::Table>(text).map(
        |table| table.into_iter().map(|(key, value)| (key, from_toml(value))).collect(),
    ).map_err(|e| e.to_string())
}

/// `toml::to_string_pretty` writes a table as a TOML text. What it writes is a function
/// of the table alone. It counts runs of quotes of a text in a byte, so none may be as
/// long as 256.
#[verifier::external_body]
fn render_toml(entries: &Vec<(String, Toml)>) -> (r: Result<String, String>)
    requires
        table_fits(entries.deep_view()),
    ensures
        outcome(r) == rendered_toml(entries.deep_view()),
{
    let table: toml::Table = entries.iter().map(
        |(key, value)| (key.clone(), to_toml(value)),
    ).collect();
    toml::to_string_pretty(&table).map_err(|e| e.to_string())
}

/// Whether no text of a table holds a run of 256 quotes of one kind.
pub open spec fn table_fits(entries: Seq<(Seq<char>, TomlView)>) -> bool {
    forall|i: int| 0 <= i < entries.len() ==> value_fits((#[trigger] entries[i]).1)
}

/// Whether no text of a value holds a run of 256 quotes of one kind.
pub open spec fn value_fits(value: TomlView) -> bool
    decreases value,
{
    match value {
        TomlView::Text(text) => crate::env::quotes_fit(text),
        TomlView::Array(items) => forall|i: int|
            0 <= i < items.len() ==> value_fits(#[trigger] items[i]),
        TomlView::Table(entries) => forall|i: int|
            0 <= i < entries.len() ==> value_fits((#[trigger] entries[i]).1),
        _ => true,
    }
}

/// Whether no text of a value holds a run of 256 quotes of one kind.
pub fn fits(value: &Toml) -> (r: bool)
    ensures
        r == value_fits(value.deep_view()),
    decreases value,
{
    match value {
        Toml::Text(text) => text_fits(text.as_str()),
        Toml::Array(items) => {
            let ghost views = value.deep_view()->Array_0;
            let mut i: usize = 0;
            while i < items.len()
                invariant
                    i <= items@.len(),
                    *value == Toml::Array(*items),
                    views == value.deep_view()->Array_0,
                    forall|j: int| 0 <= j < i ==> value_fits(#[trigger] views[j]),
                decreases items.len() - i,
            {
                assert(views[i as int] == toml_view(items@[i as int]));
                assert(decreases_to!(*value => items@[i as int]));
                if !fits(&items[i]) {
                    assert(!value_fits(views[i as int]));
                    return false;
                }
                i = i + 1;
            }
            true
        },
        Toml::Table(entries) => {
            let ghost views = value.deep_view()->Table_0;
            let mut i: usize = 0;
            while i < entries.len()
                invariant
                    i <= entries@.len(),
                    *value == Toml::Table(*entries),
                    views == value.deep_view()->Table_0,
                    forall|j: int| 0 <= j < i ==> value_fits((#[trigger] views[j]).1),
                decreases entries.len() - i,
            {
                assert(views[i as int] == (entries@[i as int].0@, toml_view(entries@[i as int].1)));
                assert(decreases_to!(*value => entries@[i as int]));
                if !fits(&entries[i].1) {
                    assert(!value_fits(views[i as int].1));
                    return false;
                }
                i = i + 1;
            }
            true
        },
        _ => true,
    }
}

/// Whether no text of a table holds a run of 256 quotes of one kind.
pub fn entries_fit(entries: &Vec<(String, Toml)>) -> (r: bool)
    ensures
        r == table_fits(entries.deep_view()),
{
    let mut i: usize = 0;
    while i < entries.len()
        invariant
            i <= entries@.len(),
            forall|j: int| 0 <= j < i ==> value_fits((#[trigger] entries.deep_view()[j]).1),
        decreases entries.len() - i,
    {
        assert(entries.deep_view()[i as int].1 == entries@[i as int].1.deep_view());
        if !fits(&entries[i].1) {
            assert(!value_fits(entries.deep_view()[i as int].1));
            return false;
        }
        i = i + 1;
    }
    true
}

/// The index of the first entry with the key.
pub open spec fn entry_index(entries: Seq<(Seq<char>, TomlView)>, key: Seq<char>) -> Option<int>
    decreases entries.len(),
{
    if entries.len() == 0 {
        None
    } else {
        match entry_index(entries.drop_last(), key) {
            Some(i) => Some(i),
            None => if entries.last().0 == key {
                Some(entries.len() - 1)
            } else {
                None
            },
        }
    }
}

/// A table in which a key stands for a text.
pub open spec fn with_text(
    entries: Seq<(Seq<char>, TomlView)>,
    key: Seq<char>,
    text: Seq<char>,
) -> Seq<(Seq<char>, TomlView)> {
    match entry_index(entries, key) {
        Some(i) => entries.update(i, (key, TomlView::Text(text))),
        None => entries.push((key, TomlView::Text(text))),
    }
}

proof fn entry_index_is_least(entries: Seq<(Seq<char>, TomlView)>, key: Seq<char>, i: int)
    requires
        0 <= i <= entries.len(),
        forall|j: int| 0 <= j < i ==> (#[trigger] entries[j]).0 != key,
        i < entries.len() ==> entries[i].0 == key,
    ensures
        entry_index(entries, key) == if i < entries.len() {
            Some(i)
        } else {
            None
        },
    decreases entries.len(),
{
    if entries.len() > 0 {
        let head = entries.drop_last();
        let k = if i < head.len() {
            i
        } else {
            head.len() as int
        };
        entry_index_is_least(head, key, k);
    }
}

/// The index of the first entry with the key.
pub fn find_entry(entries: &Vec<(String, Toml)>, key: &str) -> (r: Option<usize>)
    ensures
        match entry_index(entries.deep_view(), key@) {
            Some(i) => r matches Some(k) && k == i && k < entries@.len(),
            None => r is None,
        },
{
    let ghost all = entries.deep_view();
    let mut i: usize = 0;
    while i < entries.len() && !same(entries[i].0.as_str(), key)
        invariant
            all == entries.deep_view(),
            i <= entries@.len(),
            forall|j: int| 0 <= j < i ==> (#[trigger] all[j]).0 != key@,
        decreases entries.len() - i,
    {
        i = i + 1;
    }
    proof {
        if i < all.len() {
            assert(all[i as int].0 == entries@[i as int].0@);
        }
        entry_index_is_least(all, key@, i as int);
    }
    if i < entries.len() {
        Some(i)
    } else {
        None
    }
}

/// Lets a key of a table stand for a text.
pub fn set_text(entries: &mut Vec<(String, Toml)>, key: &str, text: &str)
    ensures
        final(entries).deep_view() == with_text(old(entries).deep_view(), key@, text@),
{
    let ghost before = entries.deep_view();
    let found = find_entry(entries, key);
    let entry = (key.to_owned(), Toml::Text(text.to_owned()));
    assert(toml_view(entry.1) == TomlView::Text(text@));
    match found {
        Some(i) => {
            entries.remove(i);
            entries.insert(i, entry);
            assert(entries.deep_view() =~= before.update(i as int, (key@, TomlView::Text(text@))));
        },
        None => {
            entries.push(entry);
            assert(entries.deep_view() =~= before.push((key@, TomlView::Text(text@))));
        },
    }
}

/// A text of a file, with the message for an error.
pub open spec fn written(text: Result<Seq<char>, Seq<char>>, path: Seq<char>) -> Result<
    Seq<char>,
    Seq<char>,
> {
    match text {
        Ok(text) => Ok(text),
        Err(err) => Err("failed to serialize "@ + path + ": "@ + err),
    }
}

/// The text of a file that holds a table.
pub fn table_text(entries: &Vec<(String, Toml)>, path: &str) -> (r: Result<String, String>)
    requires
        table_fits(entries.deep_view()),
    ensures
        outcome(r) == written(rendered_toml(entries.deep_view()), path@),
{
    match render_toml(entries) {
        Ok(text) => Ok(text),
        Err(err) => {
            let mut message = String::from_str("failed to serialize ");
            message.append(path);
            message.append(": ");
            message.append(err.as_str());
            Err(message)
        },
    }
}

/// The text of a file after a key of its table is set to a text; nothing where a text of
/// the table holds a run of 256 quotes of one kind, which cannot be written.
pub fn file_with_text(content: &str, key: &str, text: &str, path: &str) -> (r: Result<
    Option<String>,
    String,
>)
    ensures
        outcome(r) == match parsed_toml(content@) {
            Err(err) => Err("failed to parse "@ + path@ + ": "@ + err),
            Ok(entries) => {
                let after = with_text(entries, key@, text@);
                if table_fits(after) {
                    match written(rendered_toml(after), path@) {
                        Ok(text) => Ok(Some(text)),
                        Err(err) => Err(err),
                    }
                } else {
                    Ok(None)
                }
            },
        },
{
    let mut entries = match parse_toml(content) {
        Ok(entries) => entries,
        Err(err) => {
            let mut message = String::from_str("failed to parse ");
            message.append(path);
            message.append(": ");
            message.append(err.as_str());
            return Err(message);
        },
    };
    set_text(&mut entries, key, text);
    if !entries_fit(&entries) {
        return Ok(None);
    }
    match table_text(&entries, path) {
        Ok(text) => Ok(Some(text)),
        Err(err) => Err(err),
    }
}

/// A key that is set stands for the text, and no other key changes.
pub proof fn keys_that_are_set_read_back(
    entries: Seq<(Seq<char>, TomlView)>,
    key: Seq<char>,
    text: Seq<char>,
    i: int,
)
    requires
        0 <= i < entries.len(),
    ensures
        exists|k: int|
            0 <= k < with_text(entries, key, text).len() && #[trigger] with_text(
                entries,
                key,
                text,
            )[k] == (key, TomlView::Text(text)),
        entries[i].0 != key ==> with_text(entries, key, text)[i] == entries[i],
{
    entry_index_bounds(entries, key);
    let after = with_text(entries, key, text);
    match entry_index(entries, key) {
        Some(k) => {
            assert(after[k] == (key, TomlView::Text(text)));
        },
        None => {
            assert(after[entries.len() as int] == (key, TomlView::Text(text)));
        },
    }
}

proof fn entry_index_bounds(entries: Seq<(Seq<char>, TomlView)>, key: Seq<char>)
    ensures
        match entry_index(entries, key) {
            Some(k) => 0 <= k < entries.len() && entries[k].0 == key,
            None => true,
        },
    decreases entries.len(),
{
    if entries.len() > 0 {
        entry_index_bounds(entries.drop_last(), key);
    }
}

} // verus!
