//! Environment variable configuration source: prefix filtering, custom
//! mappings, path separators, case sensitivity, list parsing and type
//! inference.
use vstd::prelude::*;

use crate::assoc::{assoc_find, assoc_get, assoc_insert, keyed, lemma_get_index, sorted_keys};
use crate::env::{pair_views, ConfigEnv};
use crate::error::{ConfigError, ConfigErrorV, ConfigErrors, SourceLocation, SourceLocationV};
use crate::source::{ConfigValues, Source};
use crate::text::{
    chars_of, concat2, contains_spec, contains_str, is_float_literal, is_float_literal_spec,
    join_spec, join_strs, lowercase_spec, nat_decimal, parse_i64, parse_i64_spec, parse_usize,
    parse_usize_spec, slice_string, split_spec, split_str, starts_with_spec, starts_with_str,
    str_eq, to_lowercase, trim, trim_spec, usize_to_string, views, IntoText,
};
use crate::value::{list_view, ConfigValue, ConfigValueV, Value, ValueV};

verus! {

// ---------------------------------------------------------------------------
// Values
// ---------------------------------------------------------------------------

pub open spec fn is_true_word(l: Seq<char>) -> bool {
    l == "true"@ || l == "yes"@ || l == "1"@ || l == "on"@
}

pub open spec fn is_false_word(l: Seq<char>) -> bool {
    l == "false"@ || l == "no"@ || l == "0"@ || l == "off"@
}

/// Type inference for one value: a boolean word (any case), then an
/// integer, then a float, else the text itself.
pub open spec fn parse_scalar_spec(v: Seq<char>) -> ValueV {
    let l = lowercase_spec(v);
    if is_true_word(l) {
        ValueV::Bool(true)
    } else if is_false_word(l) {
        ValueV::Bool(false)
    } else {
        match parse_i64_spec(v) {
            Some(i) => ValueV::Integer(i),
            None => if is_float_literal_spec(v) {
                ValueV::Float(v)
            } else {
                ValueV::Str(v)
            },
        }
    }
}

/// A value with the list separator in it is an array of its trimmed parts.
pub open spec fn parse_env_value_spec(v: Seq<char>, list_sep: Option<Seq<char>>) -> ValueV {
    match list_sep {
        Some(sep) => if contains_spec(v, sep) {
            ValueV::Array(split_spec(v, sep).map_values(|p: Seq<char>| parse_scalar_spec(trim_spec(p))))
        } else {
            parse_scalar_spec(v)
        },
        None => parse_scalar_spec(v),
    }
}

fn is_one_of4(l: &str, a: &str, b: &str, c: &str, d: &str) -> (r: bool)
    ensures
        r == (l@ == a@ || l@ == b@ || l@ == c@ || l@ == d@),
{
    str_eq(l, a) || str_eq(l, b) || str_eq(l, c) || str_eq(l, d)
}

/// Parse a scalar value with type inference: boolean, integer, float, then
/// string.
pub fn parse_scalar(value: &str) -> (r: Value)
    ensures
        r@ == parse_scalar_spec(value@),
{
    let lower = to_lowercase(value);
    if is_one_of4(lower.as_str(), "true", "yes", "1", "on") {
        return Value::Bool(true);
    }
    if is_one_of4(lower.as_str(), "false", "no", "0", "off") {
        return Value::Bool(false);
    }
    match parse_i64(value) {
        Some(i) => Value::Integer(i),
        None => if is_float_literal(value) {
            Value::Float(value.to_string())
        } else {
            Value::String(value.to_string())
        },
    }
}

/// Parse an environment variable's value: a list where the list separator
/// occurs in it, else a scalar.
pub fn parse_env_value(value: &str, list_separator: Option<&str>) -> (r: Value)
    ensures
        r@ == parse_env_value_spec(
            value@,
            match list_separator {
                Some(s) => Some(s@),
                None => None,
            },
        ),
{
    if let Some(sep) = list_separator {
        if contains_str(value, sep) {
            let parts = split_str(value, sep);
            let mut items: Vec<Value> = Vec::new();
            let mut i: usize = 0;
            let ghost f = |p: Seq<char>| parse_scalar_spec(trim_spec(p));
            while i < parts.len()
                invariant
                    i <= parts@.len(),
                    views(parts@) == split_spec(value@, sep@),
                    list_view(items@) == views(parts@).take(i as int).map_values(f),
                    f == (|p: Seq<char>| parse_scalar_spec(trim_spec(p))),
                decreases parts@.len() - i,
            {
                let t = trim(parts[i].as_str());
                let item = parse_scalar(t.as_str());
                let ghost before = items@;
                items.push(item);
                proof {
                    assert(items@.drop_last() == before);
                    assert(views(parts@)[i as int] == parts@[i as int]@);
                    assert(list_view(items@) =~= views(parts@).take(i + 1).map_values(f));
                }
                i = i + 1;
            }
            assert(views(parts@).take(parts@.len() as int) =~= views(parts@));
            return Value::Array(items);
        }
    }
    parse_scalar(value)
}

// ---------------------------------------------------------------------------
// Paths
// ---------------------------------------------------------------------------

/// Path parts of an env var suffix: each part lower-cased; a part that is a
/// number becomes an index of the part before it.
pub open spec fn suffix_parts(parts: Seq<Seq<char>>) -> Seq<Seq<char>>
    decreases parts.len(),
{
    if parts.len() == 0 {
        Seq::empty()
    } else {
        let prev = suffix_parts(parts.drop_last());
        let lower = lowercase_spec(parts.last());
        match parse_usize_spec(lower) {
            Some(idx) => if prev.len() > 0 {
                prev.update(
                    prev.len() - 1,
                    prev.last() + "["@ + nat_decimal(idx as nat) + "]"@,
                )
            } else {
                prev.push(lower)
            },
            None => prev.push(lower),
        }
    }
}

/// `DATABASE_HOST` with separator `_` is `database.host`; `SERVERS_0_HOST`
/// is `servers[0].host`.
pub open spec fn suffix_to_path_spec(suffix: Seq<char>, separator: Seq<char>) -> Seq<char> {
    join_spec(suffix_parts(split_spec(suffix, separator)), "."@)
}

/// Convert an env var suffix to a config path.
pub fn suffix_to_path(suffix: &str, separator: &str) -> (r: String)
    ensures
        r@ == suffix_to_path_spec(suffix@, separator@),
{
    let parts = split_str(suffix, separator);
    let mut path_parts: Vec<String> = Vec::new();
    let mut i: usize = 0;
    assert(views(parts@).take(0) =~= Seq::<Seq<char>>::empty());
    while i < parts.len()
        invariant
            i <= parts@.len(),
            views(path_parts@) == suffix_parts(views(parts@).take(i as int)),
        decreases parts@.len() - i,
    {
        let ghost before = views(path_parts@);
        let lower = to_lowercase(parts[i].as_str());
        proof {
            assert(views(parts@).take(i + 1).drop_last() =~= views(parts@).take(i as int));
            assert(views(parts@).take(i + 1).last() == parts@[i as int]@);
        }
        let n = path_parts.len();
        match parse_usize(lower.as_str()) {
            Some(idx) if n > 0 => {
                let last = path_parts.pop().unwrap();
                let mut s = concat2(last.as_str(), "[");
                let digits = usize_to_string(idx);
                s.append(digits.as_str());
                s.append("]");
                path_parts.push(s);
                assert(views(path_parts@) =~= before.update(
                    before.len() - 1,
                    before.last() + "["@ + nat_decimal(idx as nat) + "]"@,
                ));
            },
            _ => {
                path_parts.push(lower);
                assert(views(path_parts@) =~= before.push(lowercase_spec(parts@[i as int]@)));
            },
        }
        i = i + 1;
    }
    assert(views(parts@).take(parts@.len() as int) =~= views(parts@));
    join_strs(&path_parts, ".")
}

// ---------------------------------------------------------------------------
// The source
// ---------------------------------------------------------------------------

/// Environment variable configuration source.
#[derive(Debug)]
pub struct Env {
    prefix: String,
    separator: String,
    case_sensitive: bool,
    list_separator: Option<String>,
    custom_mappings: Vec<(String, String)>,
    excluded: Vec<String>,
    required: Vec<String>,
}

/// The model of an env source.
pub ghost struct EnvV {
    pub prefix: Seq<char>,
    pub separator: Seq<char>,
    pub case_sensitive: bool,
    pub list_separator: Option<Seq<char>>,
    /// Suffix to path, in suffix order.
    pub custom_mappings: Seq<(Seq<char>, Seq<char>)>,
    pub excluded: Seq<Seq<char>>,
    pub required: Seq<Seq<char>>,
}

pub open spec fn mapping_views(v: Seq<(String, String)>) -> Seq<(Seq<char>, Seq<char>)> {
    v.map_values(|p: (String, String)| (p.0@, p.1@))
}

impl View for Env {
    type V = EnvV;

    closed spec fn view(&self) -> EnvV {
        EnvV {
            prefix: self.prefix@,
            separator: self.separator@,
            case_sensitive: self.case_sensitive,
            list_separator: match self.list_separator {
                Some(s) => Some(s@),
                None => None,
            },
            custom_mappings: mapping_views(self.custom_mappings@),
            excluded: views(self.excluded@),
            required: views(self.required@),
        }
    }
}

/// Text as the prefix comparison sees it.
pub open spec fn compare_form(e: EnvV, s: Seq<char>) -> Seq<char> {
    if e.case_sensitive {
        s
    } else {
        lowercase_spec(s)
    }
}

/// What follows the prefix in a variable's name (counted in characters).
pub open spec fn suffix_of(e: EnvV, key: Seq<char>) -> Seq<char> {
    if e.prefix.len() <= key.len() {
        key.skip(e.prefix.len() as int)
    } else {
        Seq::empty()
    }
}

/// Whether a variable is loaded: its name matches the prefix and is not
/// excluded.
pub open spec fn env_var_included(e: EnvV, key: Seq<char>) -> bool {
    starts_with_spec(compare_form(e, key), compare_form(e, e.prefix)) && !e.excluded.contains(key)
}

/// The config path of a loaded variable: its custom mapping, else the path
/// derived from its suffix.
pub open spec fn env_var_path(e: EnvV, key: Seq<char>) -> Seq<char> {
    match assoc_get(e.custom_mappings, suffix_of(e, key)) {
        Some(p) => p,
        None => suffix_to_path_spec(suffix_of(e, key), e.separator),
    }
}

pub open spec fn env_location(key: Seq<char>) -> SourceLocationV {
    SourceLocationV { source: "env:"@ + key, line: None, column: None }
}

/// The values that a list of variables gives, later ones replacing earlier
/// ones at the same path.
pub open spec fn env_values_spec(e: EnvV, vars: Seq<(Seq<char>, Seq<char>)>) -> Map<
    Seq<char>,
    ConfigValueV,
>
    decreases vars.len(),
{
    if vars.len() == 0 {
        Map::empty()
    } else {
        let prev = env_values_spec(e, vars.drop_last());
        let (key, value) = vars.last();
        if env_var_included(e, key) {
            prev.insert(
                env_var_path(e, key),
                ConfigValueV {
                    value: parse_env_value_spec(value, e.list_separator),
                    source: env_location(key),
                },
            )
        } else {
            prev
        }
    }
}

/// The error for a required variable that is not set.
pub open spec fn missing_var_error(e: EnvV, var: Seq<char>) -> ConfigErrorV {
    ConfigErrorV::MissingField {
        path: suffix_to_path_spec(var, e.separator),
        source_location: Some(env_location(e.prefix + var)),
        searched_sources: seq!["environment"@],
    }
}

/// The errors for the required variables that are not set, in order.
pub open spec fn missing_errors_spec(e: EnvV, present: Seq<bool>) -> Seq<ConfigErrorV>
    decreases present.len(),
{
    if present.len() == 0 {
        Seq::empty()
    } else {
        let prev = missing_errors_spec(e, present.drop_last());
        let k = present.len() - 1;
        if present.last() {
            prev
        } else {
            prev.push(missing_var_error(e, e.required[k]))
        }
    }
}

impl Env {
    #[verifier::type_invariant]
    spec fn wf(self) -> bool {
        sorted_keys(keyed(self.custom_mappings@))
    }

    /// An env source with the given prefix (stripped from the names),
    /// separator `_`, case insensitive.
    pub fn prefix<S: IntoText>(prefix: S) -> (r: Self)
        ensures
            r@ == (EnvV {
                prefix: prefix.text_view(),
                separator: "_"@,
                case_sensitive: false,
                list_separator: None,
                custom_mappings: Seq::empty(),
                excluded: Seq::empty(),
                required: Seq::empty(),
            }),
    {
        let r = Env {
            prefix: prefix.into_text(),
            separator: crate::text::string_from("_"),
            case_sensitive: false,
            list_separator: None,
            custom_mappings: Vec::new(),
            excluded: Vec::new(),
            required: Vec::new(),
        };
        assert(r@.custom_mappings =~= Seq::<(Seq<char>, Seq<char>)>::empty());
        assert(r@.excluded =~= Seq::<Seq<char>>::empty());
        assert(r@.required =~= Seq::<Seq<char>>::empty());
        r
    }

    /// An env source without a prefix: every variable.
    pub fn all() -> (r: Self)
        ensures
            r@ == (EnvV {
                prefix: Seq::empty(),
                separator: "_"@,
                case_sensitive: false,
                list_separator: None,
                custom_mappings: Seq::empty(),
                excluded: Seq::empty(),
                required: Seq::empty(),
            }),
    {
        let r = Self::prefix("");
        proof {
            reveal_strlit("");
            assert(""@ =~= Seq::<char>::empty());
        }
        r
    }

    /// Set the separator that splits names into path segments.
    pub fn separator<S: IntoText>(self, sep: S) -> (r: Self)
        ensures
            r@ == (EnvV { separator: sep.text_view(), ..self@ }),
    {
        proof {
            use_type_invariant(&self);
        }
        let mut r = self;
        r.separator = sep.into_text();
        r
    }

    /// Map a suffix (the part after the prefix) to a config path.
    pub fn map<S: IntoText, P: IntoText>(self, env_suffix: S, path: P) -> (r: Self)
        ensures
            r@ == (EnvV {
                custom_mappings: crate::assoc::sorted_insert(
                    self@.custom_mappings,
                    env_suffix.text_view(),
                    path.text_view(),
                ),
                ..self@
            }),
    {
        proof {
            use_type_invariant(&self);
        }
        let mut r = self;
        let k = env_suffix.into_text();
        let v = path.into_text();
        let ghost kv = k@;
        let ghost vv = v;
        let mut m: Vec<(String, String)> = Vec::new();
        std::mem::swap(&mut m, &mut r.custom_mappings);
        let ghost m0 = m@;
        assoc_insert(&mut m, k, v);
        proof {
            crate::assoc::lemma_map_vals_insert(
                keyed(m0),
                kv,
                vv,
                |s: String| s@,
            );
            assert(mapping_views(m0) =~= crate::assoc::map_vals(keyed(m0), |s: String| s@));
            assert(mapping_views(m@) =~= crate::assoc::map_vals(keyed(m@), |s: String| s@));
        }
        r.custom_mappings = m;
        r
    }

    /// Exclude a variable (by its full name).
    pub fn exclude<S: IntoText>(self, var: S) -> (r: Self)
        ensures
            r@ == (EnvV { excluded: self@.excluded.push(var.text_view()), ..self@ }),
    {
        proof {
            use_type_invariant(&self);
        }
        let mut r = self;
        let v = var.into_text();
        let mut ex: Vec<String> = Vec::new();
        std::mem::swap(&mut ex, &mut r.excluded);
        ex.push(v);
        r.excluded = ex;
        assert(r@.excluded =~= self@.excluded.push(var.text_view()));
        r
    }

    /// Require an exact case match of the prefix.
    pub fn case_sensitive(self) -> (r: Self)
        ensures
            r@ == (EnvV { case_sensitive: true, ..self@ }),
    {
        proof {
            use_type_invariant(&self);
        }
        let mut r = self;
        r.case_sensitive = true;
        r
    }

    /// Match the prefix regardless of case (the default).
    pub fn case_insensitive(self) -> (r: Self)
        ensures
            r@ == (EnvV { case_sensitive: false, ..self@ }),
    {
        proof {
            use_type_invariant(&self);
        }
        let mut r = self;
        r.case_sensitive = false;
        r
    }

    /// Split values containing this separator into arrays.
    pub fn list_separator<S: IntoText>(self, sep: S) -> (r: Self)
        ensures
            r@ == (EnvV { list_separator: Some(sep.text_view()), ..self@ }),
    {
        proof {
            use_type_invariant(&self);
        }
        let mut r = self;
        r.list_separator = Some(sep.into_text());
        r
    }

    /// Require a variable (named by its suffix): loading fails with a
    /// missing-field error when it is not set.
    pub fn require<S: IntoText>(self, var: S) -> (r: Self)
        ensures
            r@ == (EnvV { required: self@.required.push(var.text_view()), ..self@ }),
    {
        proof {
            use_type_invariant(&self);
        }
        let mut r = self;
        let v = var.into_text();
        let mut req: Vec<String> = Vec::new();
        std::mem::swap(&mut req, &mut r.required);
        req.push(v);
        r.required = req;
        assert(r@.required =~= self@.required.push(var.text_view()));
        r
    }

    /// Require several variables, in order.
    pub fn require_all(self, vars: &[&str]) -> (r: Self)
        ensures
            r@ == (EnvV {
                required: self@.required + vars@.map_values(|s: &str| s@),
                ..self@
            }),
    {
        let mut r = self;
        let mut i: usize = 0;
        while i < vars.len()
            invariant
                i <= vars@.len(),
                r@ == (EnvV {
                    required: self@.required + vars@.take(i as int).map_values(|s: &str| s@),
                    ..self@
                }),
            decreases vars@.len() - i,
        {
            r = r.require(vars[i]);
            assert(self@.required + vars@.take(i + 1).map_values(|s: &str| s@) =~= (
            self@.required + vars@.take(i as int).map_values(|s: &str| s@)).push(vars@[i as int]@));
            i = i + 1;
        }
        assert(vars@.take(vars@.len() as int) =~= vars@);
        r
    }

    fn excluded_contains(&self, key: &str) -> (r: bool)
        ensures
            r == self@.excluded.contains(key@),
    {
        let mut i: usize = 0;
        while i < self.excluded.len()
            invariant
                i <= self.excluded@.len(),
                forall|j: int| 0 <= j < i ==> self.excluded@[j]@ != key@,
            decreases self.excluded@.len() - i,
        {
            if str_eq(self.excluded[i].as_str(), key) {
                assert(self@.excluded[i as int] == key@);
                return true;
            }
            i = i + 1;
        }
        proof {
            if self@.excluded.contains(key@) {
                let j = choose|j: int| 0 <= j < self@.excluded.len() && self@.excluded[j] == key@;
                assert(self.excluded@[j]@ == key@);
            }
        }
        false
    }

    fn compare_form_exec(&self, s: &str) -> (r: String)
        ensures
            r@ == compare_form(self@, s@),
    {
        if self.case_sensitive {
            s.to_string()
        } else {
            to_lowercase(s)
        }
    }

    fn suffix_exec(&self, key: &str) -> (r: String)
        ensures
            r@ == suffix_of(self@, key@),
    {
        let kc = chars_of(key);
        let n = self.prefix.unicode_len();
        if n <= kc.len() {
            let r = slice_string(&kc, n, kc.len());
            assert(r@ =~= key@.skip(n as int));
            r
        } else {
            String::new()
        }
    }

    fn path_for(&self, key: &str) -> (r: String)
        ensures
            r@ == env_var_path(self@, key@),
    {
        proof {
            use_type_invariant(self);
        }
        let suffix = self.suffix_exec(key);
        proof {
            lemma_get_index(keyed(self.custom_mappings@), suffix@);
            crate::source::lemma_get_map_vals(
                keyed(self.custom_mappings@),
                suffix@,
                |s: String| s@,
            );
            assert(mapping_views(self.custom_mappings@) =~= crate::assoc::map_vals(
                keyed(self.custom_mappings@),
                |s: String| s@,
            ));
        }
        match assoc_find(&self.custom_mappings, suffix.as_str()) {
            Some(i) => self.custom_mappings[i].1.clone(),
            None => suffix_to_path(suffix.as_str(), self.separator.as_str()),
        }
    }

    /// The values that the given variables give (the pure part of loading).
    pub fn values_from_vars(&self, env_vars: &Vec<(String, String)>) -> (r: ConfigValues)
        ensures
            r@ == env_values_spec(self@, mapping_views(env_vars@)),
    {
        let mut values = ConfigValues::empty();
        let prefix_form = self.compare_form_exec(self.prefix.as_str());
        let ghost vs = mapping_views(env_vars@);
        let mut i: usize = 0;
        assert(vs.take(0) =~= Seq::<(Seq<char>, Seq<char>)>::empty());
        while i < env_vars.len()
            invariant
                i <= env_vars@.len(),
                vs == mapping_views(env_vars@),
                prefix_form@ == compare_form(self@, self@.prefix),
                values@ == env_values_spec(self@, vs.take(i as int)),
            decreases env_vars@.len() - i,
        {
            let key = &env_vars[i].0;
            let value = &env_vars[i].1;
            proof {
                assert(vs.take(i + 1).drop_last() =~= vs.take(i as int));
                assert(vs.take(i + 1).last() == (key@, value@));
            }
            let key_form = self.compare_form_exec(key.as_str());
            if starts_with_str(key_form.as_str(), prefix_form.as_str()) && !self.excluded_contains(
                key.as_str(),
            ) {
                let path = self.path_for(key.as_str());
                let parsed = parse_env_value(
                    value.as_str(),
                    match &self.list_separator {
                        Some(s) => Some(s.as_str()),
                        None => None,
                    },
                );
                let source = SourceLocation::env(key.as_str());
                values.insert(path, ConfigValue::new(parsed, source));
            }
            i = i + 1;
        }
        assert(vs.take(env_vars@.len() as int) =~= vs);
        values
    }

    /// The errors for the required variables, given whether each is set
    /// (`present[k]` for the `k`-th required variable).
    pub fn missing_errors(&self, present: &Vec<bool>) -> (r: Vec<ConfigError>)
        requires
            present@.len() == self@.required.len(),
        ensures
            crate::error::error_views(r@) == missing_errors_spec(self@, present@),
    {
        let mut r: Vec<ConfigError> = Vec::new();
        let mut i: usize = 0;
        assert(present@.take(0) =~= Seq::<bool>::empty());
        while i < present.len()
            invariant
                i <= present@.len(),
                present@.len() == self@.required.len(),
                crate::error::error_views(r@) == missing_errors_spec(
                    self@,
                    present@.take(i as int),
                ),
            decreases present@.len() - i,
        {
            proof {
                assert(present@.take(i + 1).drop_last() =~= present@.take(i as int));
                assert(present@.take(i + 1).last() == present@[i as int]);
            }
            if !present[i] {
                let var = &self.required[i];
                let name = concat2(self.prefix.as_str(), var.as_str());
                let path = suffix_to_path(var.as_str(), self.separator.as_str());
                let mut searched: Vec<String> = Vec::new();
                searched.push("environment".to_string());
                let err = ConfigError::MissingField {
                    path,
                    source_location: Some(SourceLocation::env(name.as_str())),
                    searched_sources: searched,
                };
                let ghost before = r@;
                r.push(err);
                proof {
                    assert(self@.required[i as int] == var@);
                    assert(views(searched@) =~= seq!["environment"@]);
                    assert(crate::error::error_views(r@) =~= crate::error::error_views(before).push(
                        missing_var_error(self@, self@.required[i as int]),
                    ));
                }
            }
            i = i + 1;
        }
        assert(present@.take(present@.len() as int) =~= present@);
        r
    }
}

/// The variables that `env` may list for a prefix: all of them for the
/// empty prefix, else those listed under it.
pub open spec fn env_listed<E: ConfigEnv + ?Sized>(
    env: &E,
    prefix: Seq<char>,
    vars: Seq<(Seq<char>, Seq<char>)>,
) -> bool {
    if prefix.len() == 0 {
        env.lists_all(vars)
    } else {
        env.lists_prefixed(prefix, vars)
    }
}

/// Whether `env` may answer that the variable `name` is set (`found`) or not.
pub open spec fn var_found<E: ConfigEnv + ?Sized>(env: &E, name: Seq<char>, found: bool) -> bool {
    exists|o: Option<Seq<char>>| #[trigger] env.var_is(name, o) && found == o is Some
}

/// What loading `e` through `env` gives: with `present[k]` whether the
/// `k`-th required variable (read under the prefix) was found, a
/// missing-field error for each one that was not; otherwise the values of
/// the variables that the environment listed.
pub open spec fn env_loaded<E: ConfigEnv + ?Sized>(
    e: EnvV,
    env: &E,
    r: Result<ConfigValues, ConfigErrors>,
) -> bool {
    exists|present: Seq<bool>|
        {
            &&& present.len() == e.required.len()
            &&& forall|k: int|
                0 <= k < present.len() ==> #[trigger] var_found(env, e.prefix + e.required[k], present[k])
            &&& if missing_errors_spec(e, present).len() > 0 {
                r matches Err(es) && es@ == missing_errors_spec(e, present)
            } else {
                r matches Ok(v) && exists|vars: Seq<(Seq<char>, Seq<char>)>|
                    #[trigger] env_listed(env, e.prefix, vars) && v@ == env_values_spec(e, vars)
            }
        }
}

impl Source for Env {
    /// Load the environment variables: fails with a missing-field error for
    /// each required variable that is not set; otherwise the values of the
    /// variables that the environment lists (all of them without a prefix,
    /// those with the prefix otherwise).
    fn load(&self, env: &dyn ConfigEnv) -> (r: Result<ConfigValues, ConfigErrors>)
        ensures
            self@.required.len() == 0 ==> r is Ok,
            env_loaded(self@, env, r),
    {
        let mut present: Vec<bool> = Vec::new();
        let mut i: usize = 0;
        while i < self.required.len()
            invariant
                i <= self.required@.len(),
                present@.len() == i,
                forall|k: int|
                    0 <= k < i ==> #[trigger] var_found(env, self@.prefix + self@.required[k], present@[k]),
            decreases self.required@.len() - i,
        {
            let name = concat2(self.prefix.as_str(), self.required[i].as_str());
            let o = env.get_env(name.as_str());
            let found = o.is_some();
            proof {
                let ov = match o {
                    Some(v) => Some(v@),
                    None => None,
                };
                assert(self@.required[i as int] == self.required@[i as int]@);
                assert(env.var_is(self@.prefix + self@.required[i as int], ov));
                assert(var_found(env, self@.prefix + self@.required[i as int], found));
            }
            let ghost before = present@;
            present.push(found);
            proof {
                assert forall|k: int| 0 <= k < i + 1 implies #[trigger] var_found(
                    env,
                    self@.prefix + self@.required[k],
                    present@[k],
                ) by {
                    if k < i {
                        assert(present@[k] == before[k]);
                    }
                }
            }
            i = i + 1;
        }
        let missing = self.missing_errors(&present);
        proof {
            if self@.required.len() == 0 {
                assert(present@ =~= Seq::<bool>::empty());
            }
        }
        if missing.len() > 0 {
            let errors = ConfigErrors::from_vec(missing).unwrap();
            assert(errors@ == missing_errors_spec(self@, present@));
            return Err(errors);
        }
        let env_vars = if self.prefix.unicode_len() == 0 {
            env.all_env_vars()
        } else {
            env.env_vars_with_prefix(self.prefix.as_str())
        };
        proof {
            assert(pair_views(env_vars@) =~= mapping_views(env_vars@));
            assert(env_listed(env, self@.prefix, mapping_views(env_vars@)));
        }
        Ok(self.values_from_vars(&env_vars))
    }

    fn name(&self) -> (r: &str)
        ensures
            r@ == "environment"@,
    {
        "environment"
    }

    /// It reads no file.
    fn watch_path(&self) -> (r: Option<String>) {
        None
    }
}

} // verus!
