//! Default values: a partial set of path-value defaults, and the values of
//! a serialized defaults struct.
use vstd::prelude::*;

use crate::assoc::{assoc_insert, insert_all, keyed, sorted_insert, sorted_keys};
use crate::env::ConfigEnv;
use crate::error::{
    ConfigError, ConfigErrorV, ConfigErrors, SourceErrorKind, SourceErrorKindV, SourceLocation,
    SourceLocationV,
};
use crate::source::{ConfigValues, Source};
use crate::sources::json_source::{json_entries, json_entries_exec, plain_location};
use crate::sources::{apply_entries, entry_views, with_entries};
use crate::text::{concat2, string_from, IntoText};
use crate::value::{ConfigValue, ConfigValueV, Value, ValueV};
use vstd::std_specs::convert::IntoSpec;

verus! {

/// Explicit default values for some paths.
#[derive(Debug)]
pub struct PartialDefaults {
    values: Vec<(String, Value)>,
}

pub open spec fn default_views(v: Seq<(String, Value)>) -> Seq<(Seq<char>, ValueV)> {
    v.map_values(|p: (String, Value)| (p.0@, p.1@))
}

proof fn lemma_default_views(v: Seq<(String, Value)>)
    ensures
        default_views(v) == crate::assoc::map_vals(keyed(v), |x: Value| x@),
        sorted_keys(keyed(v)) ==> sorted_keys(default_views(v)),
{
    assert(default_views(v) =~= crate::assoc::map_vals(keyed(v), |x: Value| x@));
    if sorted_keys(keyed(v)) {
        assert forall|a: int, b: int| 0 <= a < b < default_views(v).len() implies crate::text::seq_lt(
            #[trigger] default_views(v)[a].0,
            #[trigger] default_views(v)[b].0,
        ) by {
            assert(keyed(v)[a].0 == default_views(v)[a].0);
            assert(keyed(v)[b].0 == default_views(v)[b].0);
        }
    }
}

impl View for PartialDefaults {
    type V = Seq<(Seq<char>, ValueV)>;

    /// The defaults, in path order.
    closed spec fn view(&self) -> Seq<(Seq<char>, ValueV)> {
        default_views(self.values@)
    }
}

/// The location of a default: `defaults:<path>`.
pub open spec fn default_location(path: Seq<char>) -> SourceLocationV {
    SourceLocationV { source: "defaults:"@ + path, line: None, column: None }
}

/// The entries that partial defaults load.
pub open spec fn partial_entries(d: Seq<(Seq<char>, ValueV)>) -> Seq<(Seq<char>, ConfigValueV)> {
    d.map_values(
        |p: (Seq<char>, ValueV)| (p.0, ConfigValueV { value: p.1, source: default_location(p.0) }),
    )
}

/// Each item's path with the value it was given.
pub open spec fn path_value_pairs<P: IntoText, V>(items: Seq<(P, V)>, vs: Seq<ValueV>) -> Seq<
    (Seq<char>, ValueV),
> {
    Seq::new(vs.len(), |i: int| (items[i].0.text_view(), vs[i]))
}

impl PartialDefaults {
    #[verifier::type_invariant]
    spec fn wf(self) -> bool {
        sorted_keys(keyed(self.values@))
    }

    /// No defaults.
    pub fn new() -> (r: Self)
        ensures
            r@ == Seq::<(Seq<char>, ValueV)>::empty(),
    {
        let r = PartialDefaults { values: Vec::new() };
        assert(r@ =~= Seq::<(Seq<char>, ValueV)>::empty());
        r
    }

    fn put(self, path: String, value: Value) -> (r: Self)
        ensures
            r@ == sorted_insert(self@, path@, value@),
            sorted_keys(r@),
    {
        proof {
            use_type_invariant(&self);
            lemma_default_views(self.values@);
        }
        let ghost p = path@;
        let ghost v = value;
        let mut values = self.values;
        let ghost v0 = values@;
        assoc_insert(&mut values, path, value);
        proof {
            crate::assoc::lemma_map_vals_insert(keyed(v0), p, v, |x: Value| x@);
            lemma_default_views(values@);
        }
        PartialDefaults { values }
    }

    /// Set the default at a path (replacing an earlier one).
    pub fn set<P: IntoText, V: Into<Value>>(self, path: P, value: V) -> (r: Self)
        ensures
            exists|v: ValueV|
                r@ == sorted_insert(self@, path.text_view(), v) && (V::obeys_into_spec() ==> v
                    == value.into_spec()@),
    {
        let p = path.into_text();
        let v: Value = value.into();
        let ghost vv = v@;
        let r = self.put(p, v);
        assert(r@ == sorted_insert(self@, path.text_view(), vv));
        r
    }

    /// Set several defaults, in order: each replaces an earlier default at
    /// its path.
    pub fn set_many<P: IntoText, V: Into<Value>>(self, items: Vec<(P, V)>) -> (r: Self)
        ensures
            exists|vs: Seq<ValueV>|
                {
                    &&& vs.len() == items@.len()
                    &&& (V::obeys_into_spec() ==> forall|i: int|
                        0 <= i < vs.len() ==> #[trigger] vs[i] == items@[i].1.into_spec()@)
                    &&& r@ == insert_all(self@, path_value_pairs(items@, vs))
                },
    {
        let ghost orig = items@;
        let ghost mut vs: Seq<ValueV> = Seq::empty();
        let mut r = self;
        let mut items = items;
        assert(path_value_pairs(orig, vs) =~= Seq::<(Seq<char>, ValueV)>::empty());
        assert(items@ =~= orig.skip(0));
        while items.len() > 0
            invariant
                vs.len() <= orig.len(),
                items@ == orig.skip(vs.len() as int),
                V::obeys_into_spec() ==> forall|i: int|
                    0 <= i < vs.len() ==> #[trigger] vs[i] == orig[i].1.into_spec()@,
                r@ == insert_all(self@, path_value_pairs(orig, vs)),
            decreases items@.len(),
        {
            let ghost k = vs.len() as int;
            let ghost old_r = r@;
            let (p, v) = items.remove(0);
            assert(orig.skip(k)[0] == orig[k]);
            assert(items@ =~= orig.skip(k + 1));
            let ghost pv = p.text_view();
            let ghost vv = v.into_spec();
            r = r.set(p, v);
            let ghost w = choose|w: ValueV|
                r@ == sorted_insert(old_r, pv, w) && (V::obeys_into_spec() ==> w == vv@);
            proof {
                let vs2 = vs.push(w);
                assert(path_value_pairs(orig, vs2).drop_last() =~= path_value_pairs(orig, vs));
                assert(path_value_pairs(orig, vs2).last() == (pv, w));
                vs = vs2;
            }
        }
        assert(vs.len() == orig.len());
        r
    }

    /// The values: each default with location `defaults:<path>`.
    pub fn values_of(&self) -> (r: ConfigValues)
        ensures
            r@ == apply_entries(Map::empty(), partial_entries(self@)),
    {
        let mut entries: Vec<(String, ConfigValue)> = Vec::new();
        let mut i: usize = 0;
        let ghost d = self@;
        while i < self.values.len()
            invariant
                i <= self.values@.len(),
                d == default_views(self.values@),
                entries@.len() == i,
                entry_views(entries@) == partial_entries(d.take(i as int)),
            decreases self.values@.len() - i,
        {
            let path = &self.values[i].0;
            let loc = SourceLocation::new(concat2("defaults:", path.as_str()));
            let ghost before = entries@;
            let cv = ConfigValue::new(self.values[i].1.clone(), loc);
            let p2 = path.clone();
            assert(d[i as int] == (self.values@[i as int].0@, self.values@[i as int].1@));
            entries.push((p2, cv));
            assert(entries@ == before.push((p2, cv)));
            assert(entry_views(entries@) =~= entry_views(before).push((p2@, cv@)));
            assert(d.take(i + 1) =~= d.take(i as int).push(d[i as int]));
            assert(entry_views(entries@) =~= partial_entries(d.take(i + 1)));
            i = i + 1;
        }
        assert(d.take(self.values@.len() as int) =~= d);
        with_entries(ConfigValues::empty(), entries)
    }
}

impl Source for PartialDefaults {
    /// The defaults, each at its path.
    open spec fn loads(&self, env: &dyn ConfigEnv, r: Result<ConfigValues, ConfigErrors>) -> bool {
        r matches Ok(v) && v@ == apply_entries(Map::empty(), partial_entries(self@))
    }

    fn load(&self, env: &dyn ConfigEnv) -> (r: Result<ConfigValues, ConfigErrors>) {
        Ok(self.values_of())
    }

    fn name(&self) -> (r: &str)
        ensures
            r@ == "defaults"@,
    {
        "defaults"
    }

    /// It reads no file.
    fn watch_path(&self) -> (r: Option<String>) {
        None
    }
}

/// The outcome of loading serialized defaults: the flattened values, or the
/// serialization error.
pub open spec fn defaults_outcome(
    serialized: Result<ValueV, Seq<char>>,
    source_name: Seq<char>,
) -> Result<Map<Seq<char>, ConfigValueV>, ConfigErrorV> {
    match serialized {
        Ok(v) => Ok(
            apply_entries(Map::empty(), json_entries(v, Seq::empty(), plain_location(source_name))),
        ),
        Err(e) => Err(
            ConfigErrorV::SourceError {
                source_name,
                kind: SourceErrorKindV::Other { message: "Failed to serialize defaults: "@ + e },
            },
        ),
    }
}

/// The values of a defaults value serialized to a tree (or the error of its
/// serialization).
pub fn defaults_values(serialized: Result<Value, String>, source_name: &str) -> (r: Result<
    ConfigValues,
    ConfigErrors,
>)
    ensures
        match defaults_outcome(
            match serialized {
                Ok(v) => Ok(v@),
                Err(e) => Err(e@),
            },
            source_name@,
        ) {
            Ok(m) => r matches Ok(vals) && vals@ == m,
            Err(e) => r matches Err(es) && es@ == seq![e],
        },
{
    match serialized {
        Ok(v) => {
            let entries = json_entries_exec(&v, "", source_name);
            proof {
                reveal_strlit("");
                assert(""@ =~= Seq::<char>::empty());
            }
            Ok(with_entries(ConfigValues::empty(), entries))
        },
        Err(e) => Err(
            ConfigErrors::single(
                ConfigError::SourceError {
                    source_name: string_from(source_name),
                    kind: SourceErrorKind::Other {
                        message: concat2("Failed to serialize defaults: ", e.as_str()),
                    },
                },
            ),
        ),
    }
}

} // verus!
