//! JSON configuration source: files or strings, flattened to dot-notation
//! paths.
use vstd::prelude::*;

use crate::env::ConfigEnv;
use crate::error::{
    ConfigError, ConfigErrorV, ConfigErrors, SourceErrorKind, SourceErrorKindV, SourceLocation,
    SourceLocationV,
};
use crate::source::{ConfigValues, Source};
use crate::sources::{
    entry_views, with_entries, apply_entries, child_path, child_path_exec, index_child, index_child_exec, lemma_apply_concat,
    len_path, len_path_exec, source_name_spec, FileSource, FileSourceV,
};
use crate::text::IntoText;
use crate::value::{lemma_list_view, lemma_pairs_view, ConfigValue, ConfigValueV, Value, ValueV};

verus! {

// ---------------------------------------------------------------------------
// Parsing (serde_json)
// ---------------------------------------------------------------------------

/// A parsed JSON document, one node for each node of `serde_json::Value`.
#[derive(Debug)]
pub enum JsonNode {
    Null,
    Bool(bool),
    /// A number: its value when it is an integer that fits `i64`, and its text.
    Number(Option<i64>, String),
    Str(String),
    Array(Vec<JsonNode>),
    /// An object's members, in the order `serde_json` keeps them (by key).
    Object(Vec<(String, JsonNode)>),
}

/// The mathematical model of a `JsonNode`.
pub ghost enum JsonNodeV {
    Null,
    Bool(bool),
    Number(Option<i64>, Seq<char>),
    Str(Seq<char>),
    Array(Seq<JsonNodeV>),
    Object(Seq<(Seq<char>, JsonNodeV)>),
}

pub open spec fn json_node_view(n: JsonNode) -> JsonNodeV
    decreases n,
{
    match n {
        JsonNode::Null => JsonNodeV::Null,
        JsonNode::Bool(b) => JsonNodeV::Bool(b),
        JsonNode::Number(i, t) => JsonNodeV::Number(i, t@),
        JsonNode::Str(s) => JsonNodeV::Str(s@),
        JsonNode::Array(items) => JsonNodeV::Array(json_list_view(items@)),
        JsonNode::Object(members) => JsonNodeV::Object(json_members_view(members@)),
    }
}

pub open spec fn json_list_view(s: Seq<JsonNode>) -> Seq<JsonNodeV>
    decreases s,
{
    if s.len() == 0 {
        Seq::empty()
    } else {
        json_list_view(s.drop_last()).push(json_node_view(s.last()))
    }
}

pub open spec fn json_members_view(s: Seq<(String, JsonNode)>) -> Seq<(Seq<char>, JsonNodeV)>
    decreases s,
{
    if s.len() == 0 {
        Seq::empty()
    } else {
        json_members_view(s.drop_last()).push((s.last().0@, json_node_view(s.last().1)))
    }
}

impl View for JsonNode {
    type V = JsonNodeV;

    open spec fn view(&self) -> JsonNodeV {
        json_node_view(*self)
    }
}

/// The value of a JSON node: an integer that fits `i64` is an integer,
/// any other number a float (kept as its text).
pub open spec fn json_value_spec(n: JsonNodeV) -> ValueV
    decreases n, 0int,
{
    match n {
        JsonNodeV::Null => ValueV::Null,
        JsonNodeV::Bool(b) => ValueV::Bool(b),
        JsonNodeV::Number(Some(i), _) => ValueV::Integer(i),
        JsonNodeV::Number(None, t) => ValueV::Float(t),
        JsonNodeV::Str(s) => ValueV::Str(s),
        JsonNodeV::Array(items) => ValueV::Array(json_values_spec(items)),
        JsonNodeV::Object(members) => ValueV::Table(json_members_spec(members)),
    }
}

pub open spec fn json_values_spec(items: Seq<JsonNodeV>) -> Seq<ValueV>
    decreases items, 1int,
{
    if items.len() == 0 {
        Seq::empty()
    } else {
        proof {
            assert(decreases_to!(items => items[items.len() - 1]));
        }
        json_values_spec(items.drop_last()).push(json_value_spec(items.last()))
    }
}

pub open spec fn json_members_spec(members: Seq<(Seq<char>, JsonNodeV)>) -> Seq<(Seq<char>, ValueV)>
    decreases members, 1int,
{
    if members.len() == 0 {
        Seq::empty()
    } else {
        proof {
            assert(decreases_to!(members => members[members.len() - 1]));
            assert(decreases_to!(members[members.len() - 1] => members[members.len() - 1].1));
        }
        json_members_spec(members.drop_last()).push(
            (members.last().0, json_value_spec(members.last().1)),
        )
    }
}

pub proof fn lemma_json_values_spec(items: Seq<JsonNodeV>)
    ensures
        json_values_spec(items).len() == items.len(),
        forall|i: int|
            0 <= i < items.len() ==> #[trigger] json_values_spec(items)[i] == json_value_spec(
                items[i],
            ),
    decreases items.len(),
{
    if items.len() > 0 {
        lemma_json_values_spec(items.drop_last());
        assert forall|i: int| 0 <= i < items.len() implies #[trigger] json_values_spec(items)[i]
            == json_value_spec(items[i]) by {
            if i < items.len() - 1 {
                assert(items.drop_last()[i] == items[i]);
            }
        }
    }
}

pub proof fn lemma_json_members_spec(members: Seq<(Seq<char>, JsonNodeV)>)
    ensures
        json_members_spec(members).len() == members.len(),
        forall|i: int|
            0 <= i < members.len() ==> #[trigger] json_members_spec(members)[i] == (
                members[i].0,
                json_value_spec(members[i].1),
            ),
    decreases members.len(),
{
    if members.len() > 0 {
        lemma_json_members_spec(members.drop_last());
        assert forall|i: int| 0 <= i < members.len() implies #[trigger] json_members_spec(
            members,
        )[i] == (members[i].0, json_value_spec(members[i].1)) by {
            if i < members.len() - 1 {
                assert(members.drop_last()[i] == members[i]);
            }
        }
    }
}

pub proof fn lemma_json_list_view(s: Seq<JsonNode>)
    ensures
        json_list_view(s).len() == s.len(),
        forall|i: int| 0 <= i < s.len() ==> #[trigger] json_list_view(s)[i] == s[i]@,
    decreases s.len(),
{
    if s.len() > 0 {
        lemma_json_list_view(s.drop_last());
        assert forall|i: int| 0 <= i < s.len() implies #[trigger] json_list_view(s)[i] == s[i]@ by {
            if i < s.len() - 1 {
                assert(s.drop_last()[i] == s[i]);
            }
        }
    }
}

pub proof fn lemma_json_members_view(s: Seq<(String, JsonNode)>)
    ensures
        json_members_view(s).len() == s.len(),
        forall|i: int|
            0 <= i < s.len() ==> #[trigger] json_members_view(s)[i] == (s[i].0@, s[i].1@),
    decreases s.len(),
{
    if s.len() > 0 {
        lemma_json_members_view(s.drop_last());
        assert forall|i: int| 0 <= i < s.len() implies #[trigger] json_members_view(s)[i] == (
            s[i].0@,
            s[i].1@,
        ) by {
            if i < s.len() - 1 {
                assert(s.drop_last()[i] == s[i]);
            }
        }
    }
}

/// The value of a parsed JSON node: integers that fit `i64` stay integers,
/// other numbers become floats.
pub fn json_to_value(n: &JsonNode) -> (r: Value)
    ensures
        r@ == json_value_spec(n@),
    decreases n,
{
    match n {
        JsonNode::Null => Value::Null,
        JsonNode::Bool(b) => Value::Bool(*b),
        JsonNode::Number(i, t) => match i {
            Some(i) => Value::Integer(*i),
            None => Value::Float(t.clone()),
        },
        JsonNode::Str(s) => Value::String(s.clone()),
        JsonNode::Array(items) => {
            let mut out: Vec<Value> = Vec::new();
            let mut k: usize = 0;
            while k < items.len()
                invariant
                    k <= items@.len(),
                    *n == JsonNode::Array(*items),
                    out@.len() == k,
                    forall|j: int| 0 <= j < k ==> #[trigger] out@[j]@ == json_value_spec(items@[j]@),
                decreases items@.len() - k,
            {
                proof {
                    assert(decreases_to!(*n => (*n)->Array_0));
                    assert((*n)->Array_0 == *items);
                    assert(decreases_to!(*items => items@));
                    assert(decreases_to!(items@ => items@[k as int]));
                }
                let v = json_to_value(&items[k]);
                out.push(v);
                k = k + 1;
            }
            proof {
                lemma_json_list_view(items@);
                lemma_json_values_spec(json_list_view(items@));
                crate::value::lemma_list_view(out@);
                assert forall|j: int| 0 <= j < out@.len() implies #[trigger] crate::value::list_view(
                    out@,
                )[j] == json_values_spec(json_list_view(items@))[j] by {
                    assert(out@[j]@ == json_value_spec(items@[j]@));
                    assert(json_list_view(items@)[j] == items@[j]@);
                }
                assert(crate::value::list_view(out@) =~= json_values_spec(json_list_view(items@)));
            }
            Value::Array(out)
        },
        JsonNode::Object(members) => {
            let mut out: Vec<(String, Value)> = Vec::new();
            let mut k: usize = 0;
            while k < members.len()
                invariant
                    k <= members@.len(),
                    *n == JsonNode::Object(*members),
                    out@.len() == k,
                    forall|j: int|
                        #![trigger out@[j]]
                        0 <= j < k ==> out@[j].0@ == members@[j].0@ && out@[j].1@
                            == json_value_spec(members@[j].1@),
                decreases members@.len() - k,
            {
                proof {
                    assert(decreases_to!(*n => (*n)->Object_0));
                    assert((*n)->Object_0 == *members);
                    assert(decreases_to!(*members => members@));
                    assert(decreases_to!(members@ => members@[k as int]));
                    assert(decreases_to!(members@[k as int] => members@[k as int].1));
                }
                let key = members[k].0.clone();
                let v = json_to_value(&members[k].1);
                out.push((key, v));
                k = k + 1;
            }
            proof {
                lemma_json_members_view(members@);
                lemma_json_members_spec(json_members_view(members@));
                crate::value::lemma_pairs_view(out@);
                assert forall|j: int| 0 <= j < out@.len() implies #[trigger] crate::value::pairs_view(
                    out@,
                )[j] == json_members_spec(json_members_view(members@))[j] by {
                    assert(out@[j].1@ == json_value_spec(members@[j].1@));
                    assert(json_members_view(members@)[j] == (members@[j].0@, members@[j].1@));
                }
                assert(crate::value::pairs_view(out@) =~= json_members_spec(
                    json_members_view(members@),
                ));
            }
            Value::Table(out)
        },
    }
}

/// What `serde_json::from_str` gives for a text, as a node tree; or the
/// error's message, line and column.
pub uninterp spec fn json_document_spec(content: Seq<char>) -> Result<JsonNodeV, (Seq<char>, usize, usize)>;

/// Converts a `serde_json::Value` into a `JsonNode`, one node for one node.
#[verifier::external_body]
fn json_node_tree(v: &serde_json::Value) -> JsonNode {
    match v {
        serde_json::Value::Null => JsonNode::Null,
        serde_json::Value::Bool(b) => JsonNode::Bool(*b),
        serde_json::Value::Number(n) => JsonNode::Number(n.as_i64(), n.to_string()),
        serde_json::Value::String(s) => JsonNode::Str(s.clone()),
        serde_json::Value::Array(a) => JsonNode::Array(a.iter().map(json_node_tree).collect()),
        serde_json::Value::Object(o) => JsonNode::Object(
            o.iter().map(|(k, x)| (k.clone(), json_node_tree(x))).collect(),
        ),
    }
}

/// Parses the text with `serde_json::from_str`; the result is named
/// `json_document_spec` of the text.
#[verifier::external_body]
fn parse_json_document(content: &str) -> (r: Result<JsonNode, (String, usize, usize)>)
    ensures
        match r {
            Ok(v) => json_document_spec(content@) == Ok::<JsonNodeV, (Seq<char>, usize, usize)>(v@),
            Err(e) => json_document_spec(content@) == Err::<JsonNodeV, (Seq<char>, usize, usize)>(
                (e.0@, e.1, e.2),
            ),
        },
{
    match serde_json::from_str::<serde_json::Value>(content) {
        Ok(doc) => Ok(json_node_tree(&doc)),
        Err(e) => Err((e.to_string(), e.line(), e.column())),
    }
}

// ---------------------------------------------------------------------------
// Flattening
// ---------------------------------------------------------------------------

pub open spec fn plain_location(source_name: Seq<char>) -> SourceLocationV {
    SourceLocationV { source: source_name, line: None, column: None }
}

/// The entries of a JSON tree under `prefix`: objects by key, arrays by
/// index and their length at `prefix.__len`, other values as they are.
pub open spec fn json_entries(v: ValueV, prefix: Seq<char>, loc: SourceLocationV) -> Seq<
    (Seq<char>, ConfigValueV),
>
    decreases v, 0int,
{
    match v {
        ValueV::Table(t) => json_pair_entries(t, prefix, loc),
        ValueV::Array(a) => json_item_entries(a, prefix, loc) + seq![
            (
                len_path(prefix),
                ConfigValueV { value: ValueV::Integer(a.len() as i64), source: loc },
            ),
        ],
        _ => seq![(prefix, ConfigValueV { value: v, source: loc })],
    }
}

pub open spec fn json_pair_entries(
    t: Seq<(Seq<char>, ValueV)>,
    prefix: Seq<char>,
    loc: SourceLocationV,
) -> Seq<(Seq<char>, ConfigValueV)>
    decreases t, 1int,
{
    if t.len() == 0 {
        Seq::empty()
    } else {
        proof {
            assert(decreases_to!(t => t[t.len() - 1]));
        }
        json_pair_entries(t.drop_last(), prefix, loc) + json_entries(
            t[t.len() - 1].1,
            child_path(prefix, t[t.len() - 1].0),
            loc,
        )
    }
}

pub open spec fn json_item_entries(a: Seq<ValueV>, prefix: Seq<char>, loc: SourceLocationV) -> Seq<
    (Seq<char>, ConfigValueV),
>
    decreases a, 1int,
{
    if a.len() == 0 {
        Seq::empty()
    } else {
        json_item_entries(a.drop_last(), prefix, loc) + json_entries(
            a[a.len() - 1],
            index_child(prefix, a.len() - 1),
            loc,
        )
    }
}

proof fn lemma_json_items_prefix(a: Seq<ValueV>, prefix: Seq<char>, loc: SourceLocationV, i: int)
    requires
        0 <= i < a.len(),
    ensures
        json_item_entries(a.take(i + 1), prefix, loc) == json_item_entries(a.take(i), prefix, loc)
            + json_entries(a[i], index_child(prefix, i), loc),
{
    assert(a.take(i + 1).drop_last() =~= a.take(i));
    assert(a.take(i + 1)[i] == a[i]);
}

proof fn lemma_json_pairs_prefix(
    t: Seq<(Seq<char>, ValueV)>,
    prefix: Seq<char>,
    loc: SourceLocationV,
    i: int,
)
    requires
        0 <= i < t.len(),
    ensures
        json_pair_entries(t.take(i + 1), prefix, loc) == json_pair_entries(t.take(i), prefix, loc)
            + json_entries(t[i].1, child_path(prefix, t[i].0), loc),
{
    assert(t.take(i + 1).drop_last() =~= t.take(i));
    assert(t.take(i + 1)[i] == t[i]);
}

pub fn json_entries_exec(v: &Value, prefix: &str, source_name: &str) -> (r: Vec<(String, ConfigValue)>)
    ensures
        entry_views(r@) == json_entries(v@, prefix@, plain_location(source_name@)),
    decreases v,
{
    let ghost loc = plain_location(source_name@);
    let mut out: Vec<(String, ConfigValue)> = Vec::new();
    match v {
        Value::Table(t) => {
            let ghost tv = crate::value::pairs_view(t@);
            proof {
                lemma_pairs_view(t@);
                assert(tv.take(0) =~= Seq::<(Seq<char>, ValueV)>::empty());
                assert(entry_views(out@) =~= Seq::<(Seq<char>, ConfigValueV)>::empty());
            }
            let mut i: usize = 0;
            while i < t.len()
                invariant
                    i <= t@.len(),
                    tv == crate::value::pairs_view(t@),
                    *v == Value::Table(*t),
                    tv.len() == t@.len(),
                    forall|j: int| 0 <= j < t@.len() ==> #[trigger] tv[j] == (t@[j].0@, t@[j].1@),
                    loc == plain_location(source_name@),
                    entry_views(out@) == json_pair_entries(tv.take(i as int), prefix@, loc),
                decreases t@.len() - i,
            {
                let path = child_path_exec(prefix, t[i].0.as_str());
                proof {
                    let tt: Vec<(String, Value)> = *t;
                    assert(decreases_to!(*v => (*v)->Table_0));
                    assert((*v)->Table_0 == tt);
                    assert(decreases_to!(tt => tt@));
                    assert(decreases_to!(tt@ => tt@[i as int]));
                    assert(decreases_to!(tt@[i as int] => tt@[i as int].1));
                }
                let mut sub = json_entries_exec(&t[i].1, path.as_str(), source_name);
                let ghost before = out@;
                let ghost subv = sub@;
                out.append(&mut sub);
                proof {
                    assert(entry_views(out@) =~= entry_views(before) + entry_views(subv));
                    lemma_json_pairs_prefix(tv, prefix@, loc, i as int);
                }
                i = i + 1;
            }
            assert(tv.take(t@.len() as int) =~= tv);
        },
        Value::Array(a) => {
            let ghost av = crate::value::list_view(a@);
            proof {
                lemma_list_view(a@);
                assert(av.take(0) =~= Seq::<ValueV>::empty());
                assert(entry_views(out@) =~= Seq::<(Seq<char>, ConfigValueV)>::empty());
            }
            let mut i: usize = 0;
            while i < a.len()
                invariant
                    i <= a@.len(),
                    av == crate::value::list_view(a@),
                    *v == Value::Array(*a),
                    av.len() == a@.len(),
                    forall|j: int| 0 <= j < a@.len() ==> #[trigger] av[j] == a@[j]@,
                    loc == plain_location(source_name@),
                    entry_views(out@) == json_item_entries(av.take(i as int), prefix@, loc),
                decreases a@.len() - i,
            {
                let path = index_child_exec(prefix, i);
                proof {
                    let aa: Vec<Value> = *a;
                    assert(decreases_to!(*v => (*v)->Array_0));
                    assert((*v)->Array_0 == aa);
                    assert(decreases_to!(aa => aa@));
                    assert(decreases_to!(aa@ => aa@[i as int]));
                }
                let mut sub = json_entries_exec(&a[i], path.as_str(), source_name);
                let ghost before = out@;
                let ghost subv = sub@;
                out.append(&mut sub);
                proof {
                    assert(entry_views(out@) =~= entry_views(before) + entry_views(subv));
                    lemma_json_items_prefix(av, prefix@, loc, i as int);
                }
                i = i + 1;
            }
            assert(av.take(a@.len() as int) =~= av);
            let n = #[verifier::truncate] (a.len() as i64);
            let ghost before = out@;
            out.push(
                (
                    len_path_exec(prefix),
                    ConfigValue::new(Value::Integer(n), SourceLocation::new(source_name)),
                ),
            );
            assert(entry_views(out@) =~= entry_views(before).push(
                (len_path(prefix@), ConfigValueV { value: ValueV::Integer(n), source: loc }),
            ));
        },
        _ => {
            out.push(
                (
                    crate::text::string_from(prefix),
                    ConfigValue::new(v.clone(), SourceLocation::new(source_name)),
                ),
            );
            assert(entry_views(out@) =~= seq![(prefix@, ConfigValueV { value: v@, source: loc })]);
        },
    }
    out
}

/// The outcome of parsing JSON text: its flattened values, or the parse
/// error with its line and column.
pub open spec fn parse_json_outcome(
    doc: Result<JsonNodeV, (Seq<char>, usize, usize)>,
    source_name: Seq<char>,
) -> Result<Map<Seq<char>, ConfigValueV>, ConfigErrorV> {
    match doc {
        Ok(n) => Ok(
            apply_entries(
                Map::empty(),
                json_entries(json_value_spec(n), Seq::empty(), plain_location(source_name)),
            ),
        ),
        Err((message, line, column)) => Err(
            ConfigErrorV::SourceError {
                source_name,
                kind: SourceErrorKindV::ParseError {
                    message,
                    line: Some(line as u32),
                    column: Some(column as u32),
                },
            },
        ),
    }
}

/// The values of a parsed JSON document (the pure part of loading).
pub fn json_values(
    doc: Result<JsonNode, (String, usize, usize)>,
    source_name: &str,
) -> (r: Result<ConfigValues, ConfigErrors>)
    ensures
        match parse_json_outcome(
            match doc {
                Ok(v) => Ok(v@),
                Err(e) => Err((e.0@, e.1, e.2)),
            },
            source_name@,
        ) {
            Ok(m) => r matches Ok(vals) && vals@ == m,
            Err(e) => r matches Err(es) && es@ == seq![e],
        },
{
    match doc {
        Ok(n) => {
            let v = json_to_value(&n);
            let entries = json_entries_exec(&v, "", source_name);
            proof {
                reveal_strlit("");
                assert(""@ =~= Seq::<char>::empty());
            }
            Ok(with_entries(ConfigValues::empty(), entries))
        },
        Err((message, line, column)) => Err(
            ConfigErrors::single(
                ConfigError::SourceError {
                    source_name: crate::text::string_from(source_name),
                    kind: SourceErrorKind::ParseError {
                        message,
                        line: Some(line as u32),
                        column: Some(column as u32),
                    },
                },
            ),
        ),
    }
}

/// Parse JSON text into values.
pub fn parse_json(content: &str, source_name: &str) -> (r: Result<ConfigValues, ConfigErrors>)
    ensures
        match parse_json_outcome(json_document_spec(content@), source_name@) {
            Ok(m) => r matches Ok(vals) && vals@ == m,
            Err(e) => r matches Err(es) && es@ == seq![e],
        },
{
    json_values(parse_json_document(content), source_name)
}

// ---------------------------------------------------------------------------
// The source
// ---------------------------------------------------------------------------

/// What parsing a text gives, as the source named `source_name` reports it.
pub open spec fn json_parse(source_name: Seq<char>) -> spec_fn(Seq<char>) -> Result<
    Map<Seq<char>, ConfigValueV>,
    ConfigErrorV,
> {
    |c: Seq<char>| parse_json_outcome(json_document_spec(c), source_name)
}

/// JSON configuration source.
#[derive(Debug)]
pub struct Json {
    inner: FileSource,
}

impl View for Json {
    type V = FileSourceV;

    closed spec fn view(&self) -> FileSourceV {
        self.inner@
    }
}

impl Json {
    /// Load JSON from a file (required by default).
    pub fn file<P: IntoText>(path: P) -> (r: Self)
        ensures
            r@ == (FileSourceV {
                origin: crate::sources::SourceOriginV::File(path.text_view()),
                required: true,
                name: None,
            }),
    {
        Json { inner: FileSource::file(path) }
    }

    /// Load JSON from a string.
    pub fn string<C: IntoText>(content: C) -> (r: Self)
        ensures
            r@ == (FileSourceV {
                origin: crate::sources::SourceOriginV::Text {
                    content: content.text_view(),
                    name: "<string>"@,
                },
                required: true,
                name: None,
            }),
    {
        Json { inner: FileSource::string(content) }
    }

    /// A missing file gives no values instead of an error.
    pub fn optional(self) -> (r: Self)
        ensures
            r@ == (FileSourceV { required: false, ..self@ }),
    {
        Json { inner: self.inner.with_required(false) }
    }

    /// A missing file is an error (the default).
    pub fn required(self) -> (r: Self)
        ensures
            r@ == (FileSourceV { required: true, ..self@ }),
    {
        Json { inner: self.inner.with_required(true) }
    }

    /// Set the name used in error messages.
    pub fn named<S: IntoText>(self, name: S) -> (r: Self)
        ensures
            r@ == (FileSourceV { name: Some(name.text_view()), ..self@ }),
    {
        Json { inner: self.inner.with_name(name) }
    }

    /// The name used in error messages.
    pub fn source_name(&self) -> (r: String)
        ensures
            r@ == source_name_spec(self@),
    {
        self.inner.source_name()
    }
}

impl Source for Json {
    /// The parsed text; for a file, the parse of what reading it gave, or
    /// what the read's failure means.
    fn load(&self, env: &dyn ConfigEnv) -> (r: Result<ConfigValues, ConfigErrors>)
        ensures
            crate::sources::document_loaded(self@, env, json_parse(source_name_spec(self@)), r),
    {
        let fetched_r = self.inner.fetch(env);
        let ghost pre = fetched_r;
        let r = match fetched_r {
            Ok(content) => {
                let name = self.inner.source_name();
                parse_json(content.as_str(), name.as_str())
            },
            Err(done) => done,
        };
        proof {
            match self@.origin {
                crate::sources::SourceOriginV::File(p) => {
                    let read = choose|read: Result<Seq<char>, (crate::env::ReadErrorKind, Seq<char>)>|
                        #[trigger] env.reads(p, read) && crate::sources::fetched(
                            crate::sources::read_outcome_spec(
                                read,
                                self@.required,
                                source_name_spec(self@),
                                p,
                            ),
                            pre,
                        );
                    assert(env.reads(p, read));
                },
                _ => {},
            }
        }
        r
    }

    /// Its custom name, else the file's path or the text's name.
    fn name(&self) -> (r: &str)
        ensures
            r@ == source_name_spec(self@),
    {
        self.inner.display_name()
    }

    open spec fn watched(&self) -> Option<Seq<char>> {
        crate::sources::watched_file(self@)
    }

    /// The file, for a file source.
    fn watch_path(&self) -> (r: Option<String>)
        ensures
            match self@.origin {
                crate::sources::SourceOriginV::File(p) => r is Some && r->0@ == p,
                crate::sources::SourceOriginV::Text { .. } => r is None,
            },
    {
        self.inner.watch_path()
    }
}

} // verus!
