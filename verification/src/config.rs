//! The loaded configuration value, and the pure steps of building one from
//! sources.
use vstd::prelude::*;

use crate::env::ConfigEnv;
use crate::error::{
    error_views, ConfigError, ConfigErrorV, ConfigErrors, SourceLocation, SourceLocationV,
    Validation,
};
use crate::source::{merge_config_values, merge_maps, views_of, ConfigValues, Source};
use crate::text::{
    chars_of, contains_spec, contains_str, find_from, find_from_spec, find_spec, reverse_vec,
    slice_string, string_from, views,
};
use crate::trace::TraceBuilder;
use crate::value::ConfigValueV;

verus! {

/// A loaded, validated configuration.
#[derive(Debug)]
pub struct Config<T> {
    inner: T,
}

impl<T> Config<T> {
    /// The value inside.
    pub closed spec fn inner(&self) -> T {
        self.inner
    }

    /// Wrap a value.
    pub fn new(value: T) -> (r: Self)
        ensures
            r.inner() == value,
    {
        Config { inner: value }
    }

    /// A reference to the value.
    pub fn get(&self) -> (r: &T)
        ensures
            *r == self.inner(),
    {
        &self.inner
    }

    /// The value itself.
    pub fn into_inner(self) -> (r: T)
        ensures
            r == self.inner(),
    {
        self.inner
    }

    /// A builder for this configuration type, with no sources yet.
    pub fn builder() -> (r: ConfigBuilder<T>)
        ensures
            r.source_count() == 0,
    {
        ConfigBuilder::new()
    }
}

/// The files that are present, in order.
pub open spec fn present_files(ws: Seq<Option<Seq<char>>>) -> Seq<Seq<char>>
    decreases ws.len(),
{
    if ws.len() == 0 {
        Seq::empty()
    } else {
        match ws.last() {
            Some(p) => present_files(ws.drop_last()).push(p),
            None => present_files(ws.drop_last()),
        }
    }
}

/// The sources that a configuration is loaded from, in order: a later
/// source overrides an earlier one.
pub struct ConfigBuilder<T> {
    sources: Vec<Box<dyn Source>>,
    _marker: std::marker::PhantomData<T>,
}

impl<T> ConfigBuilder<T> {
    /// How many sources have been added.
    pub closed spec fn source_count(&self) -> nat {
        self.sources@.len()
    }

    /// The file that each source reads, in order (`None` for a source that
    /// reads none).
    pub closed spec fn watched_each(&self) -> Seq<Option<Seq<char>>> {
        self.sources@.map_values(|b: Box<dyn Source>| b.watched())
    }

    /// A builder with no sources.
    pub fn new() -> (r: Self)
        ensures
            r.source_count() == 0,
            r.watched_each() == Seq::<Option<Seq<char>>>::empty(),
    {
        ConfigBuilder { sources: Vec::new(), _marker: std::marker::PhantomData }
    }

    /// Add a source after the others.
    pub fn source<S: Source + 'static>(self, source: S) -> (r: Self)
        ensures
            r.source_count() == self.source_count() + 1,
            r.watched_each().len() == r.source_count(),
            forall|i: int|
                0 <= i < self.source_count() ==> #[trigger] r.watched_each()[i]
                    == self.watched_each()[i],
    {
        let mut sources = self.sources;
        let ghost before = sources@;
        let b: Box<dyn Source> = Box::new(source);
        assert(sources@ == before);
        sources.push(b);
        assert(sources@ == before.push(b));
        assert(before == self.sources@);
        let r = ConfigBuilder { sources, _marker: std::marker::PhantomData };
        assert(r.sources@ == before.push(b));
        proof {
            vstd::seq::axiom_seq_push_len(before, b);
        }
        proof {
            let f = |x: Box<dyn Source>| x.watched();
            assert(r.watched_each() == before.push(b).map_values(f));
            assert(self.watched_each() == before.map_values(f));
            assert forall|i: int| 0 <= i < self.source_count() implies #[trigger] r.watched_each()[i]
                == self.watched_each()[i] by {
                vstd::seq::axiom_seq_push_index_different(before, b, i);
            }
        }
        r
    }

    /// The number of sources.
    pub fn len(&self) -> (r: usize)
        ensures
            r == self.source_count(),
    {
        self.sources.len()
    }

    /// The name of each source, in order.
    pub fn source_names(&self) -> (r: Vec<String>)
        ensures
            r.len() == self.source_count(),
    {
        let mut names: Vec<String> = Vec::new();
        let mut i: usize = 0;
        while i < self.sources.len()
            invariant
                i <= self.sources.len(),
                names.len() == i,
            decreases self.sources.len() - i,
        {
            let n = self.sources[i].name();
            names.push(string_from(n));
            i = i + 1;
        }
        names
    }

    /// The files that the sources read, in source order.
    pub fn watch_paths(&self) -> (r: Vec<String>)
        ensures
            views(r@) == present_files(self.watched_each()),
    {
        let mut paths: Vec<String> = Vec::new();
        let mut i: usize = 0;
        while i < self.sources.len()
            invariant
                i <= self.sources.len(),
                views(paths@) == present_files(self.watched_each().take(i as int)),
            decreases self.sources.len() - i,
        {
            let ghost before = paths@;
            let w = self.sources[i].watch_path();
            assert(self.watched_each().take(i as int + 1).drop_last() =~= self.watched_each().take(
                i as int,
            ));
            match w {
                Some(p) => {
                    paths.push(p);
                    assert(views(paths@) =~= views(before).push(paths@.last()@));
                },
                None => {},
            }
            i = i + 1;
        }
        assert(self.watched_each().take(i as int) =~= self.watched_each());
        paths
    }

    /// Whether the `i`-th source may load `r` through `env`.
    pub closed spec fn source_loads(
        &self,
        i: int,
        env: &dyn ConfigEnv,
        r: Result<ConfigValues, ConfigErrors>,
    ) -> bool {
        self.sources@[i].loads(env, r)
    }

    /// What each source loads through `env`, in order.
    pub fn load_each(&self, env: &dyn ConfigEnv) -> (r: Vec<Result<ConfigValues, ConfigErrors>>)
        ensures
            r.len() == self.source_count(),
            forall|i: int| 0 <= i < r.len() ==> self.source_loads(i, env, #[trigger] r@[i]),
    {
        let mut results: Vec<Result<ConfigValues, ConfigErrors>> = Vec::new();
        let mut i: usize = 0;
        while i < self.sources.len()
            invariant
                i <= self.sources.len(),
                results.len() == i,
                forall|j: int| 0 <= j < i ==> self.source_loads(j, env, #[trigger] results@[j]),
            decreases self.sources.len() - i,
        {
            let loaded = self.sources[i].load(env);
            assert(self.source_loads(i as int, env, loaded));
            results.push(loaded);
            i = i + 1;
        }
        results
    }

    /// Load every source through `env` and merge what they give, or gather
    /// the errors of all sources that failed.
    pub fn load(&self, env: &dyn ConfigEnv) -> (r: Result<ConfigValues, ConfigErrors>)
        ensures
            self.source_count() == 0 ==> r is Err && r->Err_0@ == seq![ConfigErrorV::NoSources],
            exists|loads: Seq<Result<ConfigValues, ConfigErrors>>|
                {
                    &&& loads.len() == self.source_count()
                    &&& forall|i: int|
                        0 <= i < loads.len() ==> self.source_loads(i, env, #[trigger] loads[i])
                    &&& #[trigger] collected_view(loads) == load_result_view(r)
                },
    {
        let mut loads: Vec<Result<ConfigValues, ConfigErrors>> = Vec::new();
        let mut i: usize = 0;
        while i < self.sources.len()
            invariant
                i <= self.sources.len(),
                loads.len() == i,
                forall|j: int| 0 <= j < i ==> self.source_loads(j, env, #[trigger] loads@[j]),
            decreases self.sources.len() - i,
        {
            let loaded = self.sources[i].load(env);
            assert(self.source_loads(i as int, env, loaded));
            loads.push(loaded);
            i = i + 1;
        }
        let ghost lv = loads@;
        let r = collect_loads(loads);
        assert(collected_view(lv) == load_result_view(r));
        r
    }
}

impl<T> Default for ConfigBuilder<T> {
    /// A builder with no sources.
    fn default() -> (r: Self)
        ensures
            r.source_count() == 0,
    {
        ConfigBuilder::new()
    }
}

/// The errors of the sources that failed, in source order.
pub open spec fn load_errors(loads: Seq<Result<ConfigValues, ConfigErrors>>) -> Seq<ConfigErrorV>
    decreases loads.len(),
{
    if loads.len() == 0 {
        Seq::empty()
    } else {
        load_errors(loads.drop_last()) + match loads.last() {
            Err(es) => es@,
            Ok(_) => Seq::empty(),
        }
    }
}

/// The values of the sources that loaded, in source order.
pub open spec fn load_values(loads: Seq<Result<ConfigValues, ConfigErrors>>) -> Seq<ConfigValues>
    decreases loads.len(),
{
    if loads.len() == 0 {
        Seq::empty()
    } else {
        match loads.last() {
            Ok(v) => load_values(loads.drop_last()).push(v),
            Err(_) => load_values(loads.drop_last()),
        }
    }
}

/// What loading gives, from what each source gave: no sources is an
/// error, any failed source makes all failures the error, and otherwise
/// the values are merged in order.
pub open spec fn collected_view(loads: Seq<Result<ConfigValues, ConfigErrors>>) -> Result<
    Map<Seq<char>, ConfigValueV>,
    Seq<ConfigErrorV>,
> {
    if loads.len() == 0 {
        Err(seq![ConfigErrorV::NoSources])
    } else if load_errors(loads).len() > 0 {
        Err(load_errors(loads))
    } else {
        Ok(merge_maps(views_of(load_values(loads))))
    }
}

pub open spec fn load_result_view(r: Result<ConfigValues, ConfigErrors>) -> Result<
    Map<Seq<char>, ConfigValueV>,
    Seq<ConfigErrorV>,
> {
    match r {
        Ok(v) => Ok(v@),
        Err(es) => Err(es@),
    }
}

/// Combine what each source loaded: an error listing every failed
/// source's errors in order if any failed, else the values merged in
/// source order (a later source wins); no sources at all is an error.
pub fn collect_loads(loads: Vec<Result<ConfigValues, ConfigErrors>>) -> (r: Result<
    ConfigValues,
    ConfigErrors,
>)
    ensures
        load_result_view(r) == collected_view(loads@),
{
    if loads.len() == 0 {
        return Err(ConfigErrors::single(ConfigError::NoSources));
    }
    let ghost all = loads@;
    let n: usize = loads.len();
    let mut rest = reverse_vec(loads);
    let mut errors: Vec<ConfigError> = Vec::new();
    let mut values: Vec<ConfigValues> = Vec::new();
    let mut i: usize = 0;
    assert(all.take(0) =~= Seq::<Result<ConfigValues, ConfigErrors>>::empty());
    assert(error_views(errors@) =~= Seq::<ConfigErrorV>::empty());
    while i < n
        invariant
            n == all.len(),
            n > 0,
            i <= n,
            rest@.len() == n - i,
            forall|j: int| 0 <= j < n - i ==> rest@[j] == all[n - 1 - j],
            error_views(errors@) == load_errors(all.take(i as int)),
            values@ == load_values(all.take(i as int)),
        decreases n - i,
    {
        let item = rest.pop().unwrap();
        assert(item == all[i as int]);
        assert(all.take(i + 1).drop_last() =~= all.take(i as int));
        assert(all.take(i + 1).last() == all[i as int]);
        match item {
            Ok(v) => {
                values.push(v);
                assert(error_views(errors@) =~= load_errors(all.take(i as int)) + Seq::empty());
            },
            Err(es) => {
                let ghost ev0 = es@;
                let ghost before = errors@;
                let mut more = es.into_vec();
                let ghost mv = more@;
                errors.append(&mut more);
                assert(error_views(errors@) =~= error_views(before) + error_views(mv));
            },
        }
        i = i + 1;
    }
    assert(all.take(n as int) =~= all);
    if errors.len() > 0 {
        Err(ConfigErrors::from_vec(errors).unwrap())
    } else {
        Ok(merge_config_values(values))
    }
}

/// The field that a "missing field" message of the deserializer names:
/// the text between its first two backticks.
pub open spec fn missing_field_spec(m: Seq<char>) -> Option<Seq<char>> {
    if contains_spec(m, "missing field"@) {
        match find_spec(m, "`"@) {
            Some(s) => match find_from_spec(m, "`"@, s + 1) {
                Some(e) => Some(m.subrange(s + 1, e)),
                None => None,
            },
            None => None,
        }
    } else {
        None
    }
}

/// The field named by a "missing field" message, if the message is one.
pub fn missing_field_name(message: &str) -> (r: Option<String>)
    ensures
        crate::error::opt_text_view(r) == missing_field_spec(message@),
{
    if !contains_str(message, "missing field") {
        return None;
    }
    let v = chars_of(message);
    let tick = chars_of("`");
    proof {
        reveal_strlit("`");
    }
    match find_from(&v, &tick, 0) {
        None => None,
        Some(s) => {
            proof {
                crate::text::lemma_find_from_bounds(v@, tick@, 0);
                assert(tick@.len() == 1);
                assert(s + 1 <= v@.len());
            }
            assert(s < v.len());
            match find_from(&v, &tick, s + 1) {
                None => None,
                Some(e) => {
                    proof {
                        crate::text::lemma_find_from_bounds(v@, tick@, s + 1);
                    }
                    Some(slice_string(&v, s + 1, e))
                },
            }
        },
    }
}

/// The error for a configuration that the merged values do not
/// deserialize into: a missing field names the sources searched, any
/// other failure is a parse error of the whole configuration.
pub open spec fn deserialize_error_spec(
    message: Seq<char>,
    source_names: Seq<Seq<char>>,
    expected: Seq<char>,
) -> ConfigErrorV {
    match missing_field_spec(message) {
        Some(f) => ConfigErrorV::MissingField {
            path: f,
            source_location: None,
            searched_sources: source_names,
        },
        None => ConfigErrorV::ParseError {
            path: "(root)"@,
            source_location: SourceLocationV { source: "merged config"@, line: None, column: None },
            expected_type: expected,
            actual_value: "(complex)"@,
            message,
        },
    }
}

/// The error reported when the merged values do not deserialize into the
/// configuration type described by `expected`, from the deserializer's message.
pub fn deserialize_error(message: &str, source_names: &Vec<String>, expected: &str) -> (r:
    ConfigErrors)
    ensures
        r@ == seq![deserialize_error_spec(message@, crate::text::views(source_names@), expected@)],
{
    match missing_field_name(message) {
        Some(field) => ConfigErrors::single(
            ConfigError::MissingField {
                path: field,
                source_location: None,
                searched_sources: crate::error::clone_strings(source_names),
            },
        ),
        None => ConfigErrors::single(
            ConfigError::ParseError {
                path: string_from("(root)"),
                source_location: SourceLocation::new("merged config"),
                expected_type: string_from(expected),
                actual_value: string_from("(complex)"),
                message: string_from(message),
            },
        ),
    }
}

/// The location of every merged value, for the validation context.
pub fn locations_of(merged: &ConfigValues) -> (r: Vec<(String, SourceLocation)>)
    ensures
        crate::validate::location_views(r@) == merged.entries().map_values(
            |e: (Seq<char>, ConfigValueV)| (e.0, e.1.source),
        ),
{
    let items = merged.iter();
    let mut out: Vec<(String, SourceLocation)> = Vec::new();
    let mut i: usize = 0;
    while i < items.len()
        invariant
            i <= items.len(),
            crate::assoc::map_vals(crate::assoc::keyed(items@), |c: crate::value::ConfigValue| crate::source::cv_view(c))
                == merged.entries(),
            crate::validate::location_views(out@) == merged.entries().take(i as int).map_values(
                |e: (Seq<char>, ConfigValueV)| (e.0, e.1.source),
            ),
        decreases items.len() - i,
    {
        let ghost before = out@;
        let entry = (items[i].0.clone(), items[i].1.source.clone());
        assert(merged.entries()[i as int] == (items@[i as int].0@, items@[i as int].1@));
        out.push(entry);
        assert(merged.entries().take(i + 1) =~= merged.entries().take(i as int).push(
            merged.entries()[i as int],
        ));
        assert(crate::validate::location_views(out@) =~= crate::validate::location_views(before).push(
            (entry.0@, entry.1@),
        ));
        i = i + 1;
    }
    assert(merged.entries().take(i as int) =~= merged.entries());
    out
}

/// The configuration, once its validation has come back: the value on
/// success, the validation's errors on failure.
pub fn validated<T>(config: T, outcome: Validation<()>) -> (r: Result<Config<T>, ConfigErrors>)
    ensures
        match outcome {
            Validation::Success(_) => r is Ok && r->Ok_0.inner() == config,
            Validation::Failure(es) => r is Err && r->Err_0@ == es@,
        },
{
    match outcome {
        Validation::Success(_) => Ok(Config::new(config)),
        Validation::Failure(errors) => Err(errors),
    }
}

/// The trace of every value that the sources loaded: each source's values
/// recorded in source order (a failed source records nothing).
pub fn trace_loads(loads: &Vec<Result<ConfigValues, ConfigErrors>>) -> (r: TraceBuilder)
    ensures
        r@ == crate::trace::record_sources(crate::trace::entries_of_all(load_values(loads@))),
{
    let mut b = TraceBuilder::new();
    let mut i: usize = 0;
    assert(loads@.take(0) =~= Seq::<Result<ConfigValues, ConfigErrors>>::empty());
    assert(crate::trace::entries_of_all(load_values(loads@.take(0))) =~= Seq::<
        Seq<(Seq<char>, ConfigValueV)>,
    >::empty());
    while i < loads.len()
        invariant
            i <= loads.len(),
            b@ == crate::trace::record_sources(
                crate::trace::entries_of_all(load_values(loads@.take(i as int))),
            ),
        decreases loads.len() - i,
    {
        assert(loads@.take(i + 1).drop_last() =~= loads@.take(i as int));
        assert(loads@.take(i + 1).last() == loads@[i as int]);
        match &loads[i] {
            Ok(values) => {
                let items = values.iter();
                let ghost e = values.entries();
                let ghost base = b@;
                let mut j: usize = 0;
                assert(e.take(0) =~= Seq::<(Seq<char>, ConfigValueV)>::empty());
                while j < items.len()
                    invariant
                        j <= items@.len(),
                        e == values.entries(),
                        crate::assoc::map_vals(
                            crate::assoc::keyed(items@),
                            |c: crate::value::ConfigValue| crate::source::cv_view(c),
                        ) == e,
                        b@ == crate::trace::record_entries(base, e.take(j as int)),
                    decreases items@.len() - j,
                {
                    assert(e[j as int] == (items@[j as int].0@, items@[j as int].1@));
                    assert(e.take(j + 1).drop_last() =~= e.take(j as int));
                    assert(e.take(j + 1).last() == e[j as int]);
                    let path = items[j].0.clone();
                    let value = items[j].1.value.clone();
                    let source = items[j].1.source.clone();
                    b.add_value(path, value, source);
                    j = j + 1;
                }
                assert(e.take(j as int) =~= e);
                let ghost lv = load_values(loads@.take(i as int));
                assert(load_values(loads@.take(i + 1)) == lv.push(*values));
                assert(crate::trace::entries_of_all(lv.push(*values)).drop_last()
                    =~= crate::trace::entries_of_all(lv));
            },
            Err(_) => {},
        }
        i = i + 1;
    }
    assert(loads@.take(i as int) =~= loads@);
    b
}

} // verus!
