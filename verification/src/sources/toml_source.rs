//! TOML configuration source: files or strings, flattened to dot-notation
//! paths, with the line of each value taken from its position in the text.
use vstd::prelude::*;

use crate::env::ConfigEnv;
use crate::error::{
    ConfigError, ConfigErrorV, ConfigErrors, SourceErrorKind, SourceErrorKindV, SourceLocation,
    SourceLocationV,
};
use crate::source::{ConfigValues, Source};
use crate::sources::outside_types::{TomlItemDoc, TomlValueDoc};
use crate::sources::{
    apply_entries, child_path, child_path_exec, count_newlines, entry_views, index_child,
    index_child_exec, len_path, len_path_exec, source_name_spec, with_entries, FileSource,
    FileSourceV,
};
use crate::text::{concat3, string_from, IntoText};
use crate::value::{
    lemma_list_view, lemma_pairs_view, list_view, pairs_view, ConfigValue, ConfigValueV, Value,
    ValueV,
};

use vstd::string::StringSliceAdditionalSpecFns;

verus! {

// ---------------------------------------------------------------------------
// The parsed document
// ---------------------------------------------------------------------------

/// A TOML value; array items and inline table values carry the byte offset
/// where they start.
#[derive(Debug)]
pub enum TomlValue {
    String(String),
    Integer(i64),
    /// A float, written out
    Float(String),
    Boolean(bool),
    /// A date-time, written out
    Datetime(String),
    Array(Vec<(TomlValue, Option<usize>)>),
    InlineTable(Vec<(String, TomlValue, Option<usize>)>),
}

/// A TOML item: nothing, a value with its offset, a table, or an array of
/// tables.
#[derive(Debug)]
pub enum TomlItem {
    Empty,
    Value(TomlValue, Option<usize>),
    Table(Vec<(String, TomlItem)>),
    ArrayOfTables(Vec<Vec<(String, TomlItem)>>),
}

pub ghost enum TomlValueV {
    String(Seq<char>),
    Integer(i64),
    Float(Seq<char>),
    Boolean(bool),
    Datetime(Seq<char>),
    Array(Seq<(TomlValueV, Option<usize>)>),
    InlineTable(Seq<(Seq<char>, TomlValueV, Option<usize>)>),
}

pub ghost enum TomlItemV {
    Empty,
    Value(TomlValueV, Option<usize>),
    Table(Seq<(Seq<char>, TomlItemV)>),
    ArrayOfTables(Seq<Seq<(Seq<char>, TomlItemV)>>),
}

pub open spec fn tv_view(v: TomlValue) -> TomlValueV
    decreases v,
{
    match v {
        TomlValue::String(s) => TomlValueV::String(s@),
        TomlValue::Integer(i) => TomlValueV::Integer(i),
        TomlValue::Float(s) => TomlValueV::Float(s@),
        TomlValue::Boolean(b) => TomlValueV::Boolean(b),
        TomlValue::Datetime(s) => TomlValueV::Datetime(s@),
        TomlValue::Array(items) => TomlValueV::Array(tv_items_view(items@)),
        TomlValue::InlineTable(pairs) => TomlValueV::InlineTable(tv_pairs_view(pairs@)),
    }
}

pub open spec fn tv_items_view(s: Seq<(TomlValue, Option<usize>)>) -> Seq<(TomlValueV, Option<usize>)>
    decreases s,
{
    if s.len() == 0 {
        Seq::empty()
    } else {
        tv_items_view(s.drop_last()).push((tv_view(s.last().0), s.last().1))
    }
}

pub open spec fn tv_pairs_view(s: Seq<(String, TomlValue, Option<usize>)>) -> Seq<
    (Seq<char>, TomlValueV, Option<usize>),
>
    decreases s,
{
    if s.len() == 0 {
        Seq::empty()
    } else {
        tv_pairs_view(s.drop_last()).push((s.last().0@, tv_view(s.last().1), s.last().2))
    }
}

pub open spec fn ti_view(i: TomlItem) -> TomlItemV
    decreases i,
{
    match i {
        TomlItem::Empty => TomlItemV::Empty,
        TomlItem::Value(v, span) => TomlItemV::Value(tv_view(v), span),
        TomlItem::Table(t) => TomlItemV::Table(ti_table_view(t@)),
        TomlItem::ArrayOfTables(a) => TomlItemV::ArrayOfTables(ti_tables_view(a@)),
    }
}

pub open spec fn ti_table_view(s: Seq<(String, TomlItem)>) -> Seq<(Seq<char>, TomlItemV)>
    decreases s,
{
    if s.len() == 0 {
        Seq::empty()
    } else {
        ti_table_view(s.drop_last()).push((s.last().0@, ti_view(s.last().1)))
    }
}

pub open spec fn ti_tables_view(s: Seq<Vec<(String, TomlItem)>>) -> Seq<Seq<(Seq<char>, TomlItemV)>>
    decreases s,
{
    if s.len() == 0 {
        Seq::empty()
    } else {
        ti_tables_view(s.drop_last()).push(ti_table_view(s.last()@))
    }
}

impl View for TomlValue {
    type V = TomlValueV;

    open spec fn view(&self) -> TomlValueV {
        tv_view(*self)
    }
}

impl View for TomlItem {
    type V = TomlItemV;

    open spec fn view(&self) -> TomlItemV {
        ti_view(*self)
    }
}

proof fn lemma_tv_items_view(s: Seq<(TomlValue, Option<usize>)>)
    ensures
        tv_items_view(s).len() == s.len(),
        forall|i: int|
            0 <= i < s.len() ==> #[trigger] tv_items_view(s)[i] == (tv_view(s[i].0), s[i].1),
    decreases s.len(),
{
    if s.len() > 0 {
        lemma_tv_items_view(s.drop_last());
        assert forall|i: int| 0 <= i < s.len() implies #[trigger] tv_items_view(s)[i] == (
            tv_view(s[i].0),
            s[i].1,
        ) by {
            if i < s.len() - 1 {
                assert(s.drop_last()[i] == s[i]);
            }
        }
    }
}

proof fn lemma_tv_pairs_view(s: Seq<(String, TomlValue, Option<usize>)>)
    ensures
        tv_pairs_view(s).len() == s.len(),
        forall|i: int|
            0 <= i < s.len() ==> #[trigger] tv_pairs_view(s)[i] == (
                s[i].0@,
                tv_view(s[i].1),
                s[i].2,
            ),
    decreases s.len(),
{
    if s.len() > 0 {
        lemma_tv_pairs_view(s.drop_last());
        assert forall|i: int| 0 <= i < s.len() implies #[trigger] tv_pairs_view(s)[i] == (
            s[i].0@,
            tv_view(s[i].1),
            s[i].2,
        ) by {
            if i < s.len() - 1 {
                assert(s.drop_last()[i] == s[i]);
            }
        }
    }
}

proof fn lemma_ti_table_view(s: Seq<(String, TomlItem)>)
    ensures
        ti_table_view(s).len() == s.len(),
        forall|i: int|
            0 <= i < s.len() ==> #[trigger] ti_table_view(s)[i] == (s[i].0@, ti_view(s[i].1)),
    decreases s.len(),
{
    if s.len() > 0 {
        lemma_ti_table_view(s.drop_last());
        assert forall|i: int| 0 <= i < s.len() implies #[trigger] ti_table_view(s)[i] == (
            s[i].0@,
            ti_view(s[i].1),
        ) by {
            if i < s.len() - 1 {
                assert(s.drop_last()[i] == s[i]);
            }
        }
    }
}

proof fn lemma_ti_tables_view(s: Seq<Vec<(String, TomlItem)>>)
    ensures
        ti_tables_view(s).len() == s.len(),
        forall|i: int| 0 <= i < s.len() ==> #[trigger] ti_tables_view(s)[i] == ti_table_view(s[i]@),
    decreases s.len(),
{
    if s.len() > 0 {
        lemma_ti_tables_view(s.drop_last());
        assert forall|i: int| 0 <= i < s.len() implies #[trigger] ti_tables_view(s)[i]
            == ti_table_view(s[i]@) by {
            if i < s.len() - 1 {
                assert(s.drop_last()[i] == s[i]);
            }
        }
    }
}

/// What `toml_edit::ImDocument::parse` gives for a text, as an item tree
/// (tables in document order); or the error's message and the offset where
/// its span starts, when it has one.
pub uninterp spec fn toml_document_spec(content: Seq<char>) -> Result<TomlItemV, (Seq<char>, Option<usize>)>;

/// Converts a `toml_edit::Value` into a `TomlValue`, one node for one node.
#[verifier::external_body]
fn toml_value_tree(v: &TomlValueDoc) -> TomlValue {
    match v {
        TomlValueDoc::String(s) => TomlValue::String(s.value().to_string()),
        TomlValueDoc::Integer(i) => TomlValue::Integer(*i.value()),
        TomlValueDoc::Float(f) => TomlValue::Float(f.value().to_string()),
        TomlValueDoc::Boolean(b) => TomlValue::Boolean(*b.value()),
        TomlValueDoc::Datetime(d) => TomlValue::Datetime(d.to_string()),
        TomlValueDoc::Array(a) => TomlValue::Array(a.iter().map(toml_spanned).collect()),
        TomlValueDoc::InlineTable(t) => TomlValue::InlineTable(
            t.iter().map(|(k, x)| (k.to_string(), toml_value_tree(x), span_start(x))).collect(),
        ),
    }
}

/// Converts a `toml_edit::Value` together with the offset where it starts.
#[verifier::external_body]
fn toml_spanned(v: &TomlValueDoc) -> (TomlValue, Option<usize>) {
    (toml_value_tree(v), span_start(v))
}

/// Where `toml_edit::Value::span` says the value starts in the text, if it knows.
#[verifier::external_body]
fn span_start(v: &TomlValueDoc) -> Option<usize> {
    v.span().map(|s| s.start)
}

/// Converts a `toml_edit::Item` into a `TomlItem`, one node for one node.
#[verifier::external_body]
fn toml_item_tree(item: &TomlItemDoc) -> TomlItem {
    match item {
        TomlItemDoc::None => TomlItem::Empty,
        TomlItemDoc::Value(v) => TomlItem::Value(toml_value_tree(v), span_start(v)),
        TomlItemDoc::Table(t) => TomlItem::Table(
            t.iter().map(|(k, x)| (k.to_string(), toml_item_tree(x))).collect(),
        ),
        TomlItemDoc::ArrayOfTables(a) => TomlItem::ArrayOfTables(
            a.iter().map(|t| t.iter().map(|(k, x)| (k.to_string(), toml_item_tree(x))).collect()).collect(),
        ),
    }
}

/// Parses the text with `toml_edit::ImDocument::parse`; the result is named
/// `toml_document_spec` of the text.
#[verifier::external_body]
fn parse_toml_document(content: &str) -> (r: Result<TomlItem, (String, Option<usize>)>)
    ensures
        match r {
            Ok(i) => toml_document_spec(content@) == Ok::<TomlItemV, (Seq<char>, Option<usize>)>(
                i@,
            ),
            Err(e) => toml_document_spec(content@) == Err::<TomlItemV, (Seq<char>, Option<usize>)>(
                (e.0@, e.1),
            ),
        },
{
    match toml_edit::ImDocument::parse(content) {
        Ok(doc) => Ok(toml_item_tree(doc.as_item())),
        Err(e) => Err((e.message().to_string(), e.span().map(|s| s.start))),
    }
}

// ---------------------------------------------------------------------------
// Values
// ---------------------------------------------------------------------------

/// The value of a TOML value (date-times as their text).
pub open spec fn toml_value_spec(v: TomlValueV) -> ValueV
    decreases v, 0int,
{
    match v {
        TomlValueV::String(s) => ValueV::Str(s),
        TomlValueV::Integer(i) => ValueV::Integer(i),
        TomlValueV::Float(s) => ValueV::Float(s),
        TomlValueV::Boolean(b) => ValueV::Bool(b),
        TomlValueV::Datetime(s) => ValueV::Str(s),
        TomlValueV::Array(items) => ValueV::Array(toml_items_spec(items)),
        TomlValueV::InlineTable(pairs) => ValueV::Table(toml_pairs_spec(pairs)),
    }
}

/// A TOML date-time loads as the string value holding its text: exactly as
/// a TOML string with the same text loads.
pub proof fn law_toml_datetime_is_text(s: Seq<char>)
    ensures
        toml_value_spec(TomlValueV::Datetime(s)) == ValueV::Str(s),
        toml_value_spec(TomlValueV::Datetime(s)) == toml_value_spec(TomlValueV::String(s)),
{
}

pub open spec fn toml_items_spec(s: Seq<(TomlValueV, Option<usize>)>) -> Seq<ValueV>
    decreases s, 1int,
{
    if s.len() == 0 {
        Seq::empty()
    } else {
        proof {
            assert(decreases_to!(s => s[s.len() - 1]));
        }
        toml_items_spec(s.drop_last()).push(toml_value_spec(s[s.len() - 1].0))
    }
}

pub open spec fn toml_pairs_spec(s: Seq<(Seq<char>, TomlValueV, Option<usize>)>) -> Seq<
    (Seq<char>, ValueV),
>
    decreases s, 1int,
{
    if s.len() == 0 {
        Seq::empty()
    } else {
        proof {
            assert(decreases_to!(s => s[s.len() - 1]));
        }
        toml_pairs_spec(s.drop_last()).push((s[s.len() - 1].0, toml_value_spec(s[s.len() - 1].1)))
    }
}

fn toml_value_to_value(v: &TomlValue) -> (r: Value)
    ensures
        r@ == toml_value_spec(v@),
    decreases v,
{
    match v {
        TomlValue::String(s) => Value::String(s.clone()),
        TomlValue::Integer(i) => Value::Integer(*i),
        TomlValue::Float(s) => Value::Float(s.clone()),
        TomlValue::Boolean(b) => Value::Bool(*b),
        TomlValue::Datetime(s) => Value::String(s.clone()),
        TomlValue::Array(items) => {
            let ghost iv = tv_items_view(items@);
            let mut out: Vec<Value> = Vec::new();
            let mut i: usize = 0;
            proof {
                lemma_tv_items_view(items@);
                assert(iv.take(0) =~= Seq::<(TomlValueV, Option<usize>)>::empty());
                assert(list_view(out@) =~= Seq::<ValueV>::empty());
            }
            while i < items.len()
                invariant
                    i <= items@.len(),
                    *v == TomlValue::Array(*items),
                    iv == tv_items_view(items@),
                    iv.len() == items@.len(),
                    forall|j: int|
                        0 <= j < items@.len() ==> #[trigger] iv[j] == (
                            items@[j].0@,
                            items@[j].1,
                        ),
                    list_view(out@) == toml_items_spec(iv.take(i as int)),
                decreases items@.len() - i,
            {
                proof {
                    let ii: Vec<(TomlValue, Option<usize>)> = *items;
                    assert(decreases_to!(*v => (*v)->Array_0));
                    assert((*v)->Array_0 == ii);
                    assert(decreases_to!(ii => ii@));
                    assert(decreases_to!(ii@ => ii@[i as int]));
                    assert(decreases_to!(ii@[i as int] => ii@[i as int].0));
                }
                let x = toml_value_to_value(&items[i].0);
                let ghost before = out@;
                out.push(x);
                proof {
                    assert(out@.drop_last() == before);
                    assert(iv.take(i + 1).drop_last() =~= iv.take(i as int));
                    assert(iv.take(i + 1)[i as int] == iv[i as int]);
                }
                i = i + 1;
            }
            assert(iv.take(items@.len() as int) =~= iv);
            Value::Array(out)
        },
        TomlValue::InlineTable(pairs) => {
            let ghost pv = tv_pairs_view(pairs@);
            let mut out: Vec<(String, Value)> = Vec::new();
            let mut i: usize = 0;
            proof {
                lemma_tv_pairs_view(pairs@);
                assert(pv.take(0) =~= Seq::<(Seq<char>, TomlValueV, Option<usize>)>::empty());
                assert(pairs_view(out@) =~= Seq::<(Seq<char>, ValueV)>::empty());
            }
            while i < pairs.len()
                invariant
                    i <= pairs@.len(),
                    *v == TomlValue::InlineTable(*pairs),
                    pv == tv_pairs_view(pairs@),
                    pv.len() == pairs@.len(),
                    forall|j: int|
                        0 <= j < pairs@.len() ==> #[trigger] pv[j] == (
                            pairs@[j].0@,
                            pairs@[j].1@,
                            pairs@[j].2,
                        ),
                    pairs_view(out@) == toml_pairs_spec(pv.take(i as int)),
                decreases pairs@.len() - i,
            {
                proof {
                    let pp: Vec<(String, TomlValue, Option<usize>)> = *pairs;
                    assert(decreases_to!(*v => (*v)->InlineTable_0));
                    assert((*v)->InlineTable_0 == pp);
                    assert(decreases_to!(pp => pp@));
                    assert(decreases_to!(pp@ => pp@[i as int]));
                    assert(decreases_to!(pp@[i as int] => pp@[i as int].1));
                }
                let x = toml_value_to_value(&pairs[i].1);
                let ghost before = out@;
                out.push((pairs[i].0.clone(), x));
                proof {
                    assert(out@.drop_last() == before);
                    assert(pv.take(i + 1).drop_last() =~= pv.take(i as int));
                    assert(pv.take(i + 1)[i as int] == pv[i as int]);
                }
                i = i + 1;
            }
            assert(pv.take(pairs@.len() as int) =~= pv);
            Value::Table(out)
        },
    }
}

// ---------------------------------------------------------------------------
// Lines
// ---------------------------------------------------------------------------

/// The 1-based line of a byte offset (counted with wrapping at `u32::MAX`).
pub open spec fn line_at(content: Seq<u8>, offset: usize) -> u32 {
    let end = if offset < content.len() {
        offset as int
    } else {
        content.len() as int
    };
    let c = count_newlines(content.take(end)) as u32;
    if c == u32::MAX {
        0
    } else {
        (c + 1) as u32
    }
}

/// Where a value that starts at `span` is.
pub open spec fn toml_location(name: Seq<char>, content: Seq<u8>, span: Option<usize>) -> SourceLocationV {
    SourceLocationV {
        source: name,
        line: match span {
            Some(s) => Some(line_at(content, s)),
            None => None,
        },
        column: None,
    }
}

fn line_at_exec(content: &str, offset: usize) -> (r: u32)
    ensures
        r == line_at(content.spec_bytes(), offset),
{
    let bytes = content.as_bytes();
    let end = if offset < bytes.len() {
        offset
    } else {
        bytes.len()
    };
    let ghost b = content.spec_bytes();
    let mut count: usize = 0;
    let mut i: usize = 0;
    assert(b.take(0) =~= Seq::<u8>::empty());
    while i < end
        invariant
            bytes@ == b,
            end <= b.len(),
            i <= end,
            count == count_newlines(b.take(i as int)),
            count <= i,
        decreases end - i,
    {
        assert(b.take(i + 1).drop_last() =~= b.take(i as int));
        if bytes[i] == 10u8 {
            count = count + 1;
        }
        i = i + 1;
    }
    let c = #[verifier::truncate] (count as u32);
    if c == u32::MAX {
        0
    } else {
        c + 1
    }
}

fn toml_location_exec(name: &str, content: &str, span: Option<usize>) -> (r: SourceLocation)
    ensures
        r@ == toml_location(name@, content.spec_bytes(), span),
{
    let loc = SourceLocation::new(name);
    match span {
        Some(s) => loc.with_line(line_at_exec(content, s)),
        None => loc,
    }
}

// ---------------------------------------------------------------------------
// Flattening
// ---------------------------------------------------------------------------

/// The entries of a value item at `prefix`: an array by index with its
/// length, an inline table by key (always `prefix.key`), else the value.
pub open spec fn toml_value_entries(
    v: TomlValueV,
    span: Option<usize>,
    prefix: Seq<char>,
    name: Seq<char>,
    content: Seq<u8>,
) -> Seq<(Seq<char>, ConfigValueV)> {
    match v {
        TomlValueV::Array(items) => Seq::new(
            items.len(),
            |i: int|
                (
                    index_child(prefix, i),
                    ConfigValueV {
                        value: toml_value_spec(items[i].0),
                        source: toml_location(name, content, items[i].1),
                    },
                ),
        ) + seq![
            (
                len_path(prefix),
                ConfigValueV {
                    value: ValueV::Integer(items.len() as i64),
                    source: toml_location(name, content, span),
                },
            ),
        ],
        TomlValueV::InlineTable(pairs) => Seq::new(
            pairs.len(),
            |i: int|
                (
                    prefix + "."@ + pairs[i].0,
                    ConfigValueV {
                        value: toml_value_spec(pairs[i].1),
                        source: toml_location(name, content, pairs[i].2),
                    },
                ),
        ),
        _ => seq![
            (
                prefix,
                ConfigValueV {
                    value: toml_value_spec(v),
                    source: toml_location(name, content, span),
                },
            ),
        ],
    }
}

/// The entries of a TOML item under `prefix`.
pub open spec fn toml_entries(
    item: TomlItemV,
    prefix: Seq<char>,
    name: Seq<char>,
    content: Seq<u8>,
) -> Seq<(Seq<char>, ConfigValueV)>
    decreases item, 0int,
{
    match item {
        TomlItemV::Empty => Seq::empty(),
        TomlItemV::Value(v, span) => toml_value_entries(v, span, prefix, name, content),
        TomlItemV::Table(t) => toml_table_entries(t, prefix, name, content),
        TomlItemV::ArrayOfTables(a) => toml_aot_entries(a, prefix, name, content) + seq![
            (
                len_path(prefix),
                ConfigValueV {
                    value: ValueV::Integer(a.len() as i64),
                    source: SourceLocationV { source: name, line: None, column: None },
                },
            ),
        ],
    }
}

/// The entries of a table: each item at `prefix.key` (or `key` at the top).
pub open spec fn toml_table_entries(
    t: Seq<(Seq<char>, TomlItemV)>,
    prefix: Seq<char>,
    name: Seq<char>,
    content: Seq<u8>,
) -> Seq<(Seq<char>, ConfigValueV)>
    decreases t, 1int,
{
    if t.len() == 0 {
        Seq::empty()
    } else {
        proof {
            assert(decreases_to!(t => t[t.len() - 1]));
        }
        toml_table_entries(t.drop_last(), prefix, name, content) + toml_entries(
            t[t.len() - 1].1,
            child_path(prefix, t[t.len() - 1].0),
            name,
            content,
        )
    }
}

/// The entries of the tables of an array, table `i` under `prefix[i]`.
pub open spec fn toml_aot_entries(
    a: Seq<Seq<(Seq<char>, TomlItemV)>>,
    prefix: Seq<char>,
    name: Seq<char>,
    content: Seq<u8>,
) -> Seq<(Seq<char>, ConfigValueV)>
    decreases a, 1int,
{
    if a.len() == 0 {
        Seq::empty()
    } else {
        proof {
            assert(decreases_to!(a => a[a.len() - 1]));
        }
        toml_aot_entries(a.drop_last(), prefix, name, content) + toml_nested_entries(
            a[a.len() - 1],
            index_child(prefix, a.len() - 1),
            name,
            content,
        )
    }
}

/// The entries of one table of an array: each item at `path.key`.
pub open spec fn toml_nested_entries(
    t: Seq<(Seq<char>, TomlItemV)>,
    path: Seq<char>,
    name: Seq<char>,
    content: Seq<u8>,
) -> Seq<(Seq<char>, ConfigValueV)>
    decreases t, 1int,
{
    if t.len() == 0 {
        Seq::empty()
    } else {
        proof {
            assert(decreases_to!(t => t[t.len() - 1]));
        }
        toml_nested_entries(t.drop_last(), path, name, content) + toml_entries(
            t[t.len() - 1].1,
            path + "."@ + t[t.len() - 1].0,
            name,
            content,
        )
    }
}

fn toml_value_entries_exec(
    v: &TomlValue,
    span: Option<usize>,
    prefix: &str,
    name: &str,
    content: &str,
) -> (r: Vec<(String, ConfigValue)>)
    ensures
        entry_views(r@) == toml_value_entries(v@, span, prefix@, name@, content.spec_bytes()),
{
    let ghost b = content.spec_bytes();
    let mut out: Vec<(String, ConfigValue)> = Vec::new();
    match v {
        TomlValue::Array(items) => {
            let ghost iv = tv_items_view(items@);
            proof {
                lemma_tv_items_view(items@);
            }
            let mut i: usize = 0;
            while i < items.len()
                invariant
                    i <= items@.len(),
                    iv == tv_items_view(items@),
                    iv.len() == items@.len(),
                    forall|j: int|
                        0 <= j < items@.len() ==> #[trigger] iv[j] == (
                            items@[j].0@,
                            items@[j].1,
                        ),
                    b == content.spec_bytes(),
                    out@.len() == i,
                    forall|j: int|
                        0 <= j < i ==> #[trigger] entry_views(out@)[j] == (
                            index_child(prefix@, j),
                            ConfigValueV {
                                value: toml_value_spec(iv[j].0),
                                source: toml_location(name@, b, iv[j].1),
                            },
                        ),
                decreases items@.len() - i,
            {
                let path = index_child_exec(prefix, i);
                let x = toml_value_to_value(&items[i].0);
                let loc = toml_location_exec(name, content, items[i].1);
                let ghost before = out@;
                out.push((path, ConfigValue::new(x, loc)));
                proof {
                    assert forall|j: int| 0 <= j < i + 1 implies #[trigger] entry_views(out@)[j]
                        == (
                        index_child(prefix@, j),
                        ConfigValueV {
                            value: toml_value_spec(iv[j].0),
                            source: toml_location(name@, b, iv[j].1),
                        },
                    ) by {
                        if j < i {
                            assert(out@[j] == before[j]);
                            assert(entry_views(out@)[j] == entry_views(before)[j]);
                        } else {
                            assert(iv[i as int] == (items@[i as int].0@, items@[i as int].1));
                        }
                    }
                }
                i = i + 1;
            }
            assert(v@ == TomlValueV::Array(iv));
            let cnt = #[verifier::truncate] (items.len() as i64);
            let loc = toml_location_exec(name, content, span);
            let ghost before = out@;
            out.push((len_path_exec(prefix), ConfigValue::new(Value::Integer(cnt), loc)));
            proof {
                let expected = toml_value_entries(v@, span, prefix@, name@, b);
                assert(expected.len() == out@.len());
                assert forall|j: int| 0 <= j < out@.len() implies #[trigger] entry_views(out@)[j]
                    == expected[j] by {
                    if j < items@.len() {
                        assert(out@[j] == before[j]);
                        assert(entry_views(before)[j] == entry_views(out@)[j]);
                    }
                }
                assert(entry_views(out@) =~= expected);
            }
        },
        TomlValue::InlineTable(pairs) => {
            let ghost pv = tv_pairs_view(pairs@);
            proof {
                lemma_tv_pairs_view(pairs@);
            }
            let mut i: usize = 0;
            while i < pairs.len()
                invariant
                    i <= pairs@.len(),
                    pv == tv_pairs_view(pairs@),
                    pv.len() == pairs@.len(),
                    forall|j: int|
                        0 <= j < pairs@.len() ==> #[trigger] pv[j] == (
                            pairs@[j].0@,
                            pairs@[j].1@,
                            pairs@[j].2,
                        ),
                    b == content.spec_bytes(),
                    out@.len() == i,
                    forall|j: int|
                        0 <= j < i ==> #[trigger] entry_views(out@)[j] == (
                            prefix@ + "."@ + pv[j].0,
                            ConfigValueV {
                                value: toml_value_spec(pv[j].1),
                                source: toml_location(name@, b, pv[j].2),
                            },
                        ),
                decreases pairs@.len() - i,
            {
                let path = concat3(prefix, ".", pairs[i].0.as_str());
                let x = toml_value_to_value(&pairs[i].1);
                let loc = toml_location_exec(name, content, pairs[i].2);
                let ghost before = out@;
                out.push((path, ConfigValue::new(x, loc)));
                proof {
                    assert forall|j: int| 0 <= j < i + 1 implies #[trigger] entry_views(out@)[j]
                        == (
                        prefix@ + "."@ + pv[j].0,
                        ConfigValueV {
                            value: toml_value_spec(pv[j].1),
                            source: toml_location(name@, b, pv[j].2),
                        },
                    ) by {
                        if j < i {
                            assert(out@[j] == before[j]);
                            assert(entry_views(out@)[j] == entry_views(before)[j]);
                        } else {
                            assert(pv[i as int] == (
                                pairs@[i as int].0@,
                                pairs@[i as int].1@,
                                pairs@[i as int].2,
                            ));
                        }
                    }
                }
                i = i + 1;
            }
            assert(v@ == TomlValueV::InlineTable(pv));
            assert(entry_views(out@) =~= toml_value_entries(v@, span, prefix@, name@, b));
        },
        _ => {
            let x = toml_value_to_value(v);
            let loc = toml_location_exec(name, content, span);
            out.push((string_from(prefix), ConfigValue::new(x, loc)));
            assert(entry_views(out@) =~= toml_value_entries(v@, span, prefix@, name@, b));
        },
    }
    out
}

fn toml_entries_exec(item: &TomlItem, prefix: &str, name: &str, content: &str) -> (r: Vec<
    (String, ConfigValue),
>)
    ensures
        entry_views(r@) == toml_entries(item@, prefix@, name@, content.spec_bytes()),
    decreases item,
{
    let ghost b = content.spec_bytes();
    let mut out: Vec<(String, ConfigValue)> = Vec::new();
    match item {
        TomlItem::Empty => {
            assert(entry_views(out@) =~= Seq::<(Seq<char>, ConfigValueV)>::empty());
        },
        TomlItem::Value(v, span) => {
            return toml_value_entries_exec(v, *span, prefix, name, content);
        },
        TomlItem::Table(t) => {
            let ghost tv = ti_table_view(t@);
            proof {
                lemma_ti_table_view(t@);
                assert(tv.take(0) =~= Seq::<(Seq<char>, TomlItemV)>::empty());
                assert(entry_views(out@) =~= Seq::<(Seq<char>, ConfigValueV)>::empty());
            }
            let mut i: usize = 0;
            while i < t.len()
                invariant
                    i <= t@.len(),
                    *item == TomlItem::Table(*t),
                    tv == ti_table_view(t@),
                    tv.len() == t@.len(),
                    forall|j: int| 0 <= j < t@.len() ==> #[trigger] tv[j] == (t@[j].0@, t@[j].1@),
                    b == content.spec_bytes(),
                    entry_views(out@) == toml_table_entries(tv.take(i as int), prefix@, name@, b),
                decreases t@.len() - i,
            {
                let path = child_path_exec(prefix, t[i].0.as_str());
                proof {
                    let tt: Vec<(String, TomlItem)> = *t;
                    assert(decreases_to!(*item => (*item)->Table_0));
                    assert((*item)->Table_0 == tt);
                    assert(decreases_to!(tt => tt@));
                    assert(decreases_to!(tt@ => tt@[i as int]));
                    assert(decreases_to!(tt@[i as int] => tt@[i as int].1));
                }
                let mut sub = toml_entries_exec(&t[i].1, path.as_str(), name, content);
                let ghost before = out@;
                let ghost subv = sub@;
                out.append(&mut sub);
                proof {
                    assert(entry_views(out@) =~= entry_views(before) + entry_views(subv));
                    assert(tv.take(i + 1).drop_last() =~= tv.take(i as int));
                    assert(tv.take(i + 1)[i as int] == tv[i as int]);
                }
                i = i + 1;
            }
            assert(tv.take(t@.len() as int) =~= tv);
        },
        TomlItem::ArrayOfTables(a) => {
            let ghost av = ti_tables_view(a@);
            proof {
                lemma_ti_tables_view(a@);
                assert(av.take(0) =~= Seq::<Seq<(Seq<char>, TomlItemV)>>::empty());
                assert(entry_views(out@) =~= Seq::<(Seq<char>, ConfigValueV)>::empty());
            }
            let mut i: usize = 0;
            while i < a.len()
                invariant
                    i <= a@.len(),
                    *item == TomlItem::ArrayOfTables(*a),
                    av == ti_tables_view(a@),
                    av.len() == a@.len(),
                    forall|j: int| 0 <= j < a@.len() ==> #[trigger] av[j] == ti_table_view(a@[j]@),
                    b == content.spec_bytes(),
                    entry_views(out@) == toml_aot_entries(av.take(i as int), prefix@, name@, b),
                decreases a@.len() - i,
            {
                let base = index_child_exec(prefix, i);
                let table = &a[i];
                let ghost tv = ti_table_view(table@);
                let ghost start = entry_views(out@);
                proof {
                    lemma_ti_table_view(table@);
                    assert(tv.take(0) =~= Seq::<(Seq<char>, TomlItemV)>::empty());
                    assert(start + toml_nested_entries(tv.take(0), base@, name@, b) =~= start);
                }
                let mut j: usize = 0;
                while j < table.len()
                    invariant
                        j <= table@.len(),
                        i < a@.len(),
                        *item == TomlItem::ArrayOfTables(*a),
                        *table == a@[i as int],
                        tv == ti_table_view(table@),
                        tv.len() == table@.len(),
                        forall|k: int|
                            0 <= k < table@.len() ==> #[trigger] tv[k] == (
                                table@[k].0@,
                                table@[k].1@,
                            ),
                        b == content.spec_bytes(),
                        entry_views(out@) == start + toml_nested_entries(
                            tv.take(j as int),
                            base@,
                            name@,
                            b,
                        ),
                    decreases table@.len() - j,
                {
                    let path = concat3(base.as_str(), ".", table[j].0.as_str());
                    proof {
                        let aa: Vec<Vec<(String, TomlItem)>> = *a;
                        assert(decreases_to!(*item => (*item)->ArrayOfTables_0));
                        assert((*item)->ArrayOfTables_0 == aa);
                        assert(decreases_to!(aa => aa@));
                        assert(decreases_to!(aa@ => aa@[i as int]));
                        let tt: Vec<(String, TomlItem)> = aa@[i as int];
                        assert(decreases_to!(tt => tt@));
                        assert(decreases_to!(tt@ => tt@[j as int]));
                        assert(decreases_to!(tt@[j as int] => tt@[j as int].1));
                    }
                    let mut sub = toml_entries_exec(&table[j].1, path.as_str(), name, content);
                    let ghost before = out@;
                    let ghost subv = sub@;
                    out.append(&mut sub);
                    proof {
                        assert(entry_views(out@) =~= entry_views(before) + entry_views(subv));
                        assert(tv.take(j + 1).drop_last() =~= tv.take(j as int));
                        assert(tv.take(j + 1)[j as int] == tv[j as int]);
                    }
                    j = j + 1;
                }
                proof {
                    assert(tv.take(table@.len() as int) =~= tv);
                    assert(av.take(i + 1).drop_last() =~= av.take(i as int));
                    assert(av.take(i + 1)[i as int] == av[i as int]);
                }
                i = i + 1;
            }
            assert(av.take(a@.len() as int) =~= av);
            let cnt = #[verifier::truncate] (a.len() as i64);
            let ghost before = out@;
            out.push(
                (len_path_exec(prefix), ConfigValue::new(Value::Integer(cnt), SourceLocation::new(name))),
            );
            assert(entry_views(out@) =~= entry_views(before).push(
                (
                    len_path(prefix@),
                    ConfigValueV {
                        value: ValueV::Integer(cnt),
                        source: SourceLocationV { source: name@, line: None, column: None },
                    },
                ),
            ));
        },
    }
    out
}

// ---------------------------------------------------------------------------
// Parsing outcome
// ---------------------------------------------------------------------------

/// The offset where the line containing byte `end` starts (just after the
/// last newline before it).
pub open spec fn line_start(b: Seq<u8>, end: int) -> int
    decreases end,
{
    if end <= 0 || end > b.len() {
        0
    } else if b[end - 1] == 10u8 {
        end
    } else {
        line_start(b, end - 1)
    }
}

/// The 1-based column of byte `start` (counted in bytes, as a `u32`).
pub open spec fn column_at(b: Seq<u8>, start: usize) -> u32 {
    let end = if start < b.len() {
        start as int
    } else {
        b.len() as int
    };
    ((start - line_start(b, end) + 1) as u32)
}

proof fn lemma_line_start_bounds(b: Seq<u8>, end: int)
    ensures
        0 <= line_start(b, end),
        0 <= end <= b.len() ==> line_start(b, end) <= end,
    decreases end,
{
    if end > 0 && end <= b.len() && b[end - 1] != 10u8 {
        lemma_line_start_bounds(b, end - 1);
    }
}

fn column_at_exec(content: &str, start: usize) -> (r: u32)
    ensures
        r == column_at(content.spec_bytes(), start),
{
    let bytes = content.as_bytes();
    let ghost b = content.spec_bytes();
    let end = if start < bytes.len() {
        start
    } else {
        bytes.len()
    };
    let mut k: usize = end;
    while k > 0 && bytes[k - 1] != 10u8
        invariant
            bytes@ == b,
            k <= end <= b.len(),
            line_start(b, k as int) == line_start(b, end as int),
        decreases k,
    {
        k = k - 1;
    }
    proof {
        lemma_line_start_bounds(b, end as int);
    }
    assert(line_start(b, end as int) == k);
    let d = start - k;
    #[verifier::truncate] (((d as u128) + 1) as u32)
}

/// The outcome of parsing TOML text: its flattened values, or the parse
/// error with the line and column where its span starts.
pub open spec fn parse_toml_outcome(
    doc: Result<TomlItemV, (Seq<char>, Option<usize>)>,
    source_name: Seq<char>,
    content: Seq<u8>,
) -> Result<Map<Seq<char>, ConfigValueV>, ConfigErrorV> {
    match doc {
        Ok(item) => Ok(
            apply_entries(Map::empty(), toml_entries(item, Seq::empty(), source_name, content)),
        ),
        Err((message, span)) => Err(
            ConfigErrorV::SourceError {
                source_name,
                kind: SourceErrorKindV::ParseError {
                    message,
                    line: match span {
                        Some(s) => Some(line_at(content, s)),
                        None => None,
                    },
                    column: match span {
                        Some(s) => Some(column_at(content, s)),
                        None => None,
                    },
                },
            },
        ),
    }
}

/// The values of a parsed TOML document (the pure part of loading).
pub fn toml_values(
    doc: Result<TomlItem, (String, Option<usize>)>,
    source_name: &str,
    content: &str,
) -> (r: Result<ConfigValues, ConfigErrors>)
    ensures
        match parse_toml_outcome(
            match doc {
                Ok(i) => Ok(i@),
                Err(e) => Err((e.0@, e.1)),
            },
            source_name@,
            content.spec_bytes(),
        ) {
            Ok(m) => r matches Ok(vals) && vals@ == m,
            Err(e) => r matches Err(es) && es@ == seq![e],
        },
{
    match doc {
        Ok(item) => {
            let entries = toml_entries_exec(&item, "", source_name, content);
            proof {
                reveal_strlit("");
                assert(""@ =~= Seq::<char>::empty());
            }
            Ok(with_entries(ConfigValues::empty(), entries))
        },
        Err((message, span)) => {
            let (line, column) = match span {
                Some(st) => (Some(line_at_exec(content, st)), Some(column_at_exec(content, st))),
                None => (None, None),
            };
            Err(
                ConfigErrors::single(
                    ConfigError::SourceError {
                        source_name: string_from(source_name),
                        kind: SourceErrorKind::ParseError { message, line, column },
                    },
                ),
            )
        },
    }
}

/// Parse TOML text into values.
pub fn parse_toml(content: &str, source_name: &str) -> (r: Result<ConfigValues, ConfigErrors>)
    ensures
        match parse_toml_outcome(
            toml_document_spec(content@),
            source_name@,
            content.spec_bytes(),
        ) {
            Ok(m) => r matches Ok(vals) && vals@ == m,
            Err(e) => r matches Err(es) && es@ == seq![e],
        },
{
    toml_values(parse_toml_document(content), source_name, content)
}

// ---------------------------------------------------------------------------
// The source
// ---------------------------------------------------------------------------

/// What parsing a text gives, as the source named `source_name` reports it.
pub open spec fn toml_parse(source_name: Seq<char>) -> spec_fn(Seq<char>) -> Result<
    Map<Seq<char>, ConfigValueV>,
    ConfigErrorV,
> {
    |c: Seq<char>| parse_toml_outcome(toml_document_spec(c), source_name, vstd::utf8::encode_utf8(c))
}

/// TOML configuration source.
#[derive(Debug)]
pub struct Toml {
    inner: FileSource,
}

impl View for Toml {
    type V = FileSourceV;

    closed spec fn view(&self) -> FileSourceV {
        self.inner@
    }
}

impl Toml {
    /// Load TOML from a file (required by default).
    pub fn file<P: IntoText>(path: P) -> (r: Self)
        ensures
            r@ == (FileSourceV {
                origin: crate::sources::SourceOriginV::File(path.text_view()),
                required: true,
                name: None,
            }),
    {
        Toml { inner: FileSource::file(path) }
    }

    /// Load TOML from a string.
    pub fn string<C: IntoText>(content: C) -> (r: Self)
        ensures
            r@ == (FileSourceV {
                origin: crate::sources::SourceOriginV::Text {
                    content: content.text_view(),
                    name: "<string>"@,
                },
                required: true,
                name: None,
            }),
    {
        Toml { inner: FileSource::string(content) }
    }

    /// A missing file gives no values instead of an error.
    pub fn optional(self) -> (r: Self)
        ensures
            r@ == (FileSourceV { required: false, ..self@ }),
    {
        Toml { inner: self.inner.with_required(false) }
    }

    /// A missing file is an error (the default).
    pub fn required(self) -> (r: Self)
        ensures
            r@ == (FileSourceV { required: true, ..self@ }),
    {
        Toml { inner: self.inner.with_required(true) }
    }

    /// Set the name used in error messages.
    pub fn named<S: IntoText>(self, name: S) -> (r: Self)
        ensures
            r@ == (FileSourceV { name: Some(name.text_view()), ..self@ }),
    {
        Toml { inner: self.inner.with_name(name) }
    }

    /// The name used in error messages.
    pub fn source_name(&self) -> (r: String)
        ensures
            r@ == source_name_spec(self@),
    {
        self.inner.source_name()
    }
}

impl Source for Toml {
    /// The parsed text; for a file, the parse of what reading it gave, or
    /// what the read's failure means.
    fn load(&self, env: &dyn ConfigEnv) -> (r: Result<ConfigValues, ConfigErrors>)
        ensures
            crate::sources::document_loaded(self@, env, toml_parse(source_name_spec(self@)), r),
    {
        let fetched_r = self.inner.fetch(env);
        let ghost pre = fetched_r;
        let r = match fetched_r {
            Ok(content) => {
                let name = self.inner.source_name();
                parse_toml(content.as_str(), name.as_str())
            },
            Err(done) => done,
        };
        proof {
            match self@.origin {
                crate::sources::SourceOriginV::File(p) => {
                    let read = choose|read: Result<Seq<char>, (crate::env::ReadErrorKind, Seq<char>)>|
                        #[trigger] env.reads(p, read) && crate::sources::fetched(
                            crate::sources::read_outcome_spec(
                                read,
                                self@.required,
                                source_name_spec(self@),
                                p,
                            ),
                            pre,
                        );
                    assert(env.reads(p, read));
                },
                _ => {},
            }
        }
        r
    }

    /// Its custom name, else the file's path or the text's name.
    fn name(&self) -> (r: &str)
        ensures
            r@ == source_name_spec(self@),
    {
        self.inner.display_name()
    }

    open spec fn watched(&self) -> Option<Seq<char>> {
        crate::sources::watched_file(self@)
    }

    /// The file, for a file source.
    fn watch_path(&self) -> (r: Option<String>)
        ensures
            match self@.origin {
                crate::sources::SourceOriginV::File(p) => r is Some && r->0@ == p,
                crate::sources::SourceOriginV::Text { .. } => r is None,
            },
    {
        self.inner.watch_path()
    }
}

} // verus!
