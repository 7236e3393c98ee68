//! Validation: the `Validate` trait for configuration types, the
//! `Validator` trait for single values, and the context that maps paths to
//! source locations.
use vstd::prelude::*;

pub mod validators;

use crate::assoc::{assoc_find, assoc_get, assoc_insert, keyed, sorted_keys};
use crate::error::{
    error_views, error_with_path_prefix, ConfigError, ConfigErrorV, ConfigErrors,
    ConfigValidation, SourceLocation, SourceLocationV, Validation,
};
use crate::text::{concat3, join_spec, join_strs, views};

verus! {

// ---------------------------------------------------------------------------
// Outcomes
// ---------------------------------------------------------------------------

/// The errors of a validation outcome (none for a success).
pub open spec fn errors_of(v: ConfigValidation<()>) -> Seq<ConfigErrorV> {
    match v {
        Validation::Success(_) => Seq::empty(),
        Validation::Failure(e) => e@,
    }
}

/// Every outcome's errors, in order.
pub open spec fn all_errors(vs: Seq<ConfigValidation<()>>) -> Seq<ConfigErrorV>
    decreases vs.len(),
{
    if vs.len() == 0 {
        Seq::empty()
    } else {
        all_errors(vs.drop_last()) + errors_of(vs.last())
    }
}

proof fn lemma_all_errors(vs: Seq<ConfigValidation<()>>)
    ensures
        all_errors(vs) == crate::error::failures_of(vs),
        crate::error::all_succeed(vs) ==> all_errors(vs).len() == 0,
    decreases vs.len(),
{
    if vs.len() > 0 {
        lemma_all_errors(vs.drop_last());
        if crate::error::all_succeed(vs) {
            assert forall|i: int| 0 <= i < vs.drop_last().len() implies (
            #[trigger] vs.drop_last()[i]) is Success by {
                assert(vs.drop_last()[i] == vs[i]);
            }
            assert(vs[vs.len() - 1] is Success);
        }
    }
}

/// Combine outcomes: a success when all succeeded, otherwise every error in
/// order.
pub fn combine_results(results: Vec<ConfigValidation<()>>) -> (r: ConfigValidation<()>)
    ensures
        errors_of(r) == all_errors(results@),
{
    let ghost rs = results@;
    let combined = Validation::all_vec(results);
    proof {
        lemma_all_errors(rs);
    }
    match combined {
        Validation::Success(_) => Validation::Success(()),
        Validation::Failure(e) => Validation::Failure(e),
    }
}

/// The outcome with every error's path put under `prefix`.
pub open spec fn prefixed_outcome(v: ConfigValidation<()>, prefix: Seq<char>) -> Seq<ConfigErrorV> {
    errors_of(v).map_values(|e: ConfigErrorV| error_with_path_prefix(e, prefix))
}

/// Put the errors of an outcome under a path prefix.
pub fn prefix_outcome(v: ConfigValidation<()>, path: &str) -> (r: ConfigValidation<()>)
    ensures
        errors_of(r) == prefixed_outcome(v, path@),
        r is Success <==> v is Success,
{
    match v {
        Validation::Success(_) => {
            assert(prefixed_outcome(v, path@) =~= Seq::<ConfigErrorV>::empty());
            Validation::Success(())
        },
        Validation::Failure(e) => {
            let ghost ev = e@;
            let p = e.with_path_prefix(path);
            assert(p@ =~= prefixed_outcome(v, path@));
            Validation::Failure(p)
        },
    }
}

// ---------------------------------------------------------------------------
// The Validate trait
// ---------------------------------------------------------------------------

/// Types that can validate themselves.
pub trait Validate {
    /// Whether `r` is an outcome that validating this value gives: any
    /// outcome, unless the type states what it gives.
    open spec fn validates_to(&self, r: ConfigValidation<()>) -> bool {
        true
    }

    /// Validate this value, accumulating all errors.
    fn validate(&self) -> (r: ConfigValidation<()>)
        ensures
            self.validates_to(r),
    ;

    /// Validate this value as the field at `path`: the outcome of validating
    /// it, with every error's path put under `path`.
    ///
    /// The library keeps no per-thread state, so this does not enter `path`
    /// into the stack of prefixes that source-location lookups use during
    /// the nested validation; that stack is handed to `location_in_context`
    /// by whoever keeps it (the application's `validate_at_in_context` enters
    /// the prefix around this call).
    fn validate_at(&self, path: &str) -> (r: ConfigValidation<()>)
        ensures
            exists|v: ConfigValidation<()>|
                {
                    &&& #[trigger] self.validates_to(v)
                    &&& prefixed_outcome(v, path@) == errors_of(r)
                    &&& r is Success <==> v is Success
                },
    {
        let result = self.validate();
        let r = prefix_outcome(result, path);
        r
    }
}

/// `r` is an outcome of validating `x` with every error's path put under
/// `path`.
pub open spec fn validates_at<T: Validate + ?Sized>(x: &T, path: Seq<char>, r: ConfigValidation<()>) -> bool {
    exists|v: ConfigValidation<()>|
        {
            &&& #[trigger] x.validates_to(v)
            &&& prefixed_outcome(v, path) == errors_of(r)
            &&& r is Success <==> v is Success
        }
}

impl Validate for () {
    open spec fn validates_to(&self, r: ConfigValidation<()>) -> bool {
        r is Success
    }

    fn validate(&self) -> (r: ConfigValidation<()>) {
        Validation::Success(())
    }
}

impl<T: Validate> Validate for Option<T> {
    /// The inner value's validation; `None` is valid.
    open spec fn validates_to(&self, r: ConfigValidation<()>) -> bool {
        match self {
            Some(inner) => inner.validates_to(r),
            None => r is Success,
        }
    }

    fn validate(&self) -> (r: ConfigValidation<()>) {
        match self {
            Some(inner) => inner.validate(),
            None => Validation::Success(()),
        }
    }
}

/// The path of element `i`: `[i]`.
pub open spec fn index_path(i: int) -> Seq<char> {
    "["@ + crate::text::nat_decimal(i as nat) + "]"@
}

pub fn index_path_exec(i: usize) -> (r: String)
    ensures
        r@ == index_path(i as int),
{
    concat3("[", crate::text::usize_to_string(i).as_str(), "]")
}

impl<T: Validate> Validate for Vec<T> {
    /// Every element validated at `[i]`, the errors accumulated in order; an
    /// empty list is valid.
    open spec fn validates_to(&self, r: ConfigValidation<()>) -> bool {
        exists|outs: Seq<ConfigValidation<()>>|
            {
                &&& outs.len() == self@.len()
                &&& forall|i: int|
                    0 <= i < outs.len() ==> validates_at(&self@[i], index_path(i), #[trigger] outs[i])
                &&& errors_of(r) == all_errors(outs)
            }
    }

    fn validate(&self) -> (r: ConfigValidation<()>) {
        let mut results: Vec<ConfigValidation<()>> = Vec::new();
        let mut i: usize = 0;
        while i < self.len()
            invariant
                i <= self@.len(),
                results@.len() == i,
                forall|j: int|
                    0 <= j < i ==> validates_at(&self@[j], index_path(j), #[trigger] results@[j]),
            decreases self@.len() - i,
        {
            let p = index_path_exec(i);
            let out = self[i].validate_at(p.as_str());
            results.push(out);
            i = i + 1;
        }
        let ghost outs = results@;
        let r = combine_results(results);
        assert(errors_of(r) == all_errors(outs));
        r
    }
}

impl Validate for bool {
    open spec fn validates_to(&self, r: ConfigValidation<()>) -> bool {
        r is Success
    }

    fn validate(&self) -> (r: ConfigValidation<()>) {
        Validation::Success(())
    }
}

impl Validate for i8 {
    open spec fn validates_to(&self, r: ConfigValidation<()>) -> bool {
        r is Success
    }

    fn validate(&self) -> (r: ConfigValidation<()>) {
        Validation::Success(())
    }
}

impl Validate for i16 {
    open spec fn validates_to(&self, r: ConfigValidation<()>) -> bool {
        r is Success
    }

    fn validate(&self) -> (r: ConfigValidation<()>) {
        Validation::Success(())
    }
}

impl Validate for i32 {
    open spec fn validates_to(&self, r: ConfigValidation<()>) -> bool {
        r is Success
    }

    fn validate(&self) -> (r: ConfigValidation<()>) {
        Validation::Success(())
    }
}

impl Validate for i64 {
    open spec fn validates_to(&self, r: ConfigValidation<()>) -> bool {
        r is Success
    }

    fn validate(&self) -> (r: ConfigValidation<()>) {
        Validation::Success(())
    }
}

impl Validate for i128 {
    open spec fn validates_to(&self, r: ConfigValidation<()>) -> bool {
        r is Success
    }

    fn validate(&self) -> (r: ConfigValidation<()>) {
        Validation::Success(())
    }
}

impl Validate for isize {
    open spec fn validates_to(&self, r: ConfigValidation<()>) -> bool {
        r is Success
    }

    fn validate(&self) -> (r: ConfigValidation<()>) {
        Validation::Success(())
    }
}

impl Validate for u8 {
    open spec fn validates_to(&self, r: ConfigValidation<()>) -> bool {
        r is Success
    }

    fn validate(&self) -> (r: ConfigValidation<()>) {
        Validation::Success(())
    }
}

impl Validate for u16 {
    open spec fn validates_to(&self, r: ConfigValidation<()>) -> bool {
        r is Success
    }

    fn validate(&self) -> (r: ConfigValidation<()>) {
        Validation::Success(())
    }
}

impl Validate for u32 {
    open spec fn validates_to(&self, r: ConfigValidation<()>) -> bool {
        r is Success
    }

    fn validate(&self) -> (r: ConfigValidation<()>) {
        Validation::Success(())
    }
}

impl Validate for u64 {
    open spec fn validates_to(&self, r: ConfigValidation<()>) -> bool {
        r is Success
    }

    fn validate(&self) -> (r: ConfigValidation<()>) {
        Validation::Success(())
    }
}

impl Validate for u128 {
    open spec fn validates_to(&self, r: ConfigValidation<()>) -> bool {
        r is Success
    }

    fn validate(&self) -> (r: ConfigValidation<()>) {
        Validation::Success(())
    }
}

impl Validate for usize {
    open spec fn validates_to(&self, r: ConfigValidation<()>) -> bool {
        r is Success
    }

    fn validate(&self) -> (r: ConfigValidation<()>) {
        Validation::Success(())
    }
}

impl Validate for char {
    open spec fn validates_to(&self, r: ConfigValidation<()>) -> bool {
        r is Success
    }

    fn validate(&self) -> (r: ConfigValidation<()>) {
        Validation::Success(())
    }
}

impl Validate for String {
    open spec fn validates_to(&self, r: ConfigValidation<()>) -> bool {
        r is Success
    }

    fn validate(&self) -> (r: ConfigValidation<()>) {
        Validation::Success(())
    }
}

impl<'a> Validate for &'a str {
    open spec fn validates_to(&self, r: ConfigValidation<()>) -> bool {
        r is Success
    }

    fn validate(&self) -> (r: ConfigValidation<()>) {
        Validation::Success(())
    }
}

// ---------------------------------------------------------------------------
// The Validator trait and helpers
// ---------------------------------------------------------------------------

/// A check of one value, reported at the value's path.
pub trait Validator<T: ?Sized> {
    /// Whether `r` is an outcome that this validator gives for the value at
    /// `path`: any outcome, unless the validator states what it gives.
    open spec fn gives(&self, value: &T, path: Seq<char>, r: ConfigValidation<()>) -> bool {
        true
    }

    /// Validate the value at `path`.
    fn validate(&self, value: &T, path: &str) -> (r: ConfigValidation<()>)
        ensures
            self.gives(value, path@, r),
    ;
}

/// The single error of a failed check.
pub open spec fn check_error(path: Seq<char>, value: Option<Seq<char>>, message: Seq<char>) -> ConfigErrorV {
    ConfigErrorV::ValidationError { path, source_location: None, value, message }
}

/// A failed check: one validation error at `path`.
pub fn fail_check(path: &str, value: Option<String>, message: String) -> (r: ConfigValidation<()>)
    ensures
        errors_of(r) == seq![
            check_error(
                path@,
                match value {
                    Some(v) => Some(v@),
                    None => None,
                },
                message@,
            ),
        ],
{
    let e = ConfigError::ValidationError {
        path: crate::text::string_from(path),
        source_location: None,
        value,
        message,
    };
    Validation::Failure(ConfigErrors::single(e))
}

/// Run every validator on the value at `path`, accumulating all errors.
pub fn validate_field<T: ?Sized>(value: &T, path: &str, validators: &[&dyn Validator<T>]) -> (r:
    ConfigValidation<()>)
    ensures
        validators@.len() == 0 ==> r is Success,
        exists|outs: Seq<ConfigValidation<()>>|
            {
                &&& outs.len() == validators@.len()
                &&& forall|i: int|
                    0 <= i < outs.len() ==> validators@[i].gives(value, path@, #[trigger] outs[i])
                &&& all_errors(outs) == errors_of(r)
            },
{
    if validators.len() == 0 {
        assert(all_errors(Seq::<ConfigValidation<()>>::empty()) == errors_of(
            Validation::<()>::Success(()),
        ));
        return Validation::Success(());
    }
    let mut results: Vec<ConfigValidation<()>> = Vec::new();
    let mut i: usize = 0;
    while i < validators.len()
        invariant
            i <= validators@.len(),
            results@.len() == i,
            forall|j: int|
                0 <= j < i ==> validators@[j].gives(value, path@, #[trigger] results@[j]),
        decreases validators@.len() - i,
    {
        results.push(validators[i].validate(value, path));
        i = i + 1;
    }
    let ghost outs = results@;
    let r = combine_results(results);
    assert(all_errors(outs) == errors_of(r));
    r
}

/// The outcome of a derived struct validation: every field's outcome, their
/// errors accumulated in order; only when all of them succeed, the
/// struct-level check (if there is one) decides.
pub fn compose_struct_validation<F: Fn() -> ConfigValidation<()>>(
    fields: Vec<ConfigValidation<()>>,
    custom: Option<F>,
) -> (r: ConfigValidation<()>)
    requires
        custom matches Some(f) ==> f.requires(()),
    ensures
        all_errors(fields@).len() > 0 ==> errors_of(r) == all_errors(fields@),
        all_errors(fields@).len() == 0 ==> match custom {
            Some(f) => f.ensures((), r),
            None => r is Success,
        },
{
    let ghost fs = fields@;
    let combined = combine_results(fields);
    match combined {
        Validation::Failure(e) => {
            let count = e.len();
            assert(count > 0);
            Validation::Failure(e)
        },
        Validation::Success(_) => match custom {
            Some(f) => f(),
            None => Validation::Success(()),
        },
    }
}

/// Validate a nested value at `path`.
pub fn validate_nested<T: Validate>(value: &T, path: &str) -> (r: ConfigValidation<()>)
    ensures
        validates_at(value, path@, r),
{
    value.validate_at(path)
}

/// Validate an optional nested value at `path`; `None` is valid.
pub fn validate_optional_nested<T: Validate>(value: &Option<T>, path: &str) -> (r:
    ConfigValidation<()>)
    ensures
        match value {
            Some(v) => validates_at(v, path@, r),
            None => r is Success,
        },
{
    match value {
        Some(v) => v.validate_at(path),
        None => Validation::Success(()),
    }
}

// ---------------------------------------------------------------------------
// Source locations of paths
// ---------------------------------------------------------------------------

/// Source locations of configuration paths, for error reporting.
#[derive(Debug)]
pub struct ValidationContext {
    locations: Vec<(String, SourceLocation)>,
}

pub open spec fn location_views(v: Seq<(String, SourceLocation)>) -> Seq<(Seq<char>, SourceLocationV)> {
    v.map_values(|p: (String, SourceLocation)| (p.0@, p.1@))
}

impl ValidationContext {
    #[verifier::type_invariant]
    spec fn wf(self) -> bool {
        sorted_keys(keyed(self.locations@))
    }

    /// The locations, in path order.
    pub closed spec fn locations_view(&self) -> Seq<(Seq<char>, SourceLocationV)> {
        location_views(self.locations@)
    }

    /// A context from (path, location) pairs; a path given twice keeps its
    /// later location.
    pub fn new(locations: Vec<(String, SourceLocation)>) -> (r: Self)
        ensures
            forall|k: Seq<char>| #[trigger]
                assoc_get(r.locations_view(), k) == assoc_get(
                    crate::assoc::insert_all(Seq::empty(), location_views(locations@)),
                    k,
                ),
    {
        let mut rest = locations;
        let ghost src = rest@;
        let ghost all = location_views(src);
        let ghost f = |l: SourceLocation| l@;
        let mut sorted: Vec<(String, SourceLocation)> = Vec::new();
        let ghost mut k: int = 0;
        assert(location_views(sorted@) =~= crate::assoc::insert_all(Seq::empty(), all.take(0)));
        assert(rest@ =~= src.skip(0));
        while rest.len() > 0
            invariant
                0 <= k <= src.len(),
                rest@ == src.skip(k),
                all == location_views(src),
                f == (|l: SourceLocation| l@),
                sorted_keys(keyed(sorted@)),
                location_views(sorted@) == crate::assoc::insert_all(Seq::empty(), all.take(k)),
            decreases rest@.len(),
        {
            assert(rest@[0] == src[k]);
            let (path, loc) = rest.remove(0);
            let ghost s0 = sorted@;
            let ghost pv = path@;
            let ghost lv = loc;
            assoc_insert(&mut sorted, path, loc);
            proof {
                assert(location_views(s0) =~= crate::assoc::map_vals(keyed(s0), f));
                assert(location_views(sorted@) =~= crate::assoc::map_vals(keyed(sorted@), f));
                crate::assoc::lemma_map_vals_insert(keyed(s0), pv, lv, f);
                assert(all.take(k + 1).drop_last() =~= all.take(k));
                assert(all.take(k + 1).last() == (pv, lv@));
                k = k + 1;
                assert(rest@ =~= src.skip(k));
            }
        }
        assert(all.take(k) =~= all);
        ValidationContext { locations: sorted }
    }

    /// The location of a path, if known.
    pub fn location_for(&self, path: &str) -> (r: Option<&SourceLocation>)
        ensures
            match r {
                Some(l) => assoc_get(self.locations_view(), path@) == Some(l@),
                None => assoc_get(self.locations_view(), path@) is None,
            },
    {
        proof {
            use_type_invariant(self);
            crate::source::lemma_get_map_vals(
                keyed(self.locations@),
                path@,
                |l: SourceLocation| l@,
            );
            assert(self.locations_view() =~= crate::assoc::map_vals(
                keyed(self.locations@),
                |l: SourceLocation| l@,
            ));
        }
        match assoc_find(&self.locations, path) {
            Some(i) => Some(&self.locations[i].1),
            None => None,
        }
    }
}

/// The full path of a field under the current nesting prefixes:
/// `a.b.path`, or `path` at the top.
pub open spec fn full_path_spec(prefixes: Seq<Seq<char>>, path: Seq<char>) -> Seq<char> {
    if prefixes.len() == 0 {
        path
    } else {
        join_spec(prefixes, "."@) + "."@ + path
    }
}

pub fn full_path(prefixes: &Vec<String>, path: &str) -> (r: String)
    ensures
        r@ == full_path_spec(views(prefixes@), path@),
{
    if prefixes.len() == 0 {
        crate::text::string_from(path)
    } else {
        let mut r = join_strs(prefixes, ".");
        r.append(".");
        r.append(path);
        r
    }
}

/// The location of a field in a context, under the nesting prefixes.
pub fn location_in_context(
    ctx: Option<&ValidationContext>,
    prefixes: &Vec<String>,
    path: &str,
) -> (r: Option<SourceLocation>)
    ensures
        match ctx {
            None => r is None,
            Some(c) => match assoc_get(
                c.locations_view(),
                full_path_spec(views(prefixes@), path@),
            ) {
                Some(l) => r matches Some(x) && x@ == l,
                None => r is None,
            },
        },
{
    match ctx {
        None => None,
        Some(c) => {
            let full = full_path(prefixes, path);
            match c.location_for(full.as_str()) {
                Some(l) => Some(l.clone()),
                None => None,
            }
        },
    }
}

// ---------------------------------------------------------------------------
// Conditional validators
// ---------------------------------------------------------------------------

/// A validator that applies only when its condition holds.
pub struct When<V, F: Fn() -> bool> {
    validator: V,
    condition: F,
}

impl<V, F: Fn() -> bool> When<V, F> {
    #[verifier::type_invariant]
    spec fn callable(self) -> bool {
        self.condition.requires(())
    }

    /// The validator that the condition guards.
    pub closed spec fn guarded(&self) -> V {
        self.validator
    }

    /// The condition.
    pub closed spec fn condition_fn(&self) -> F {
        self.condition
    }

    /// A validator applied when `condition()` returns true.
    pub fn new(validator: V, condition: F) -> (r: Self)
        requires
            condition.requires(()),
        ensures
            r.guarded() == validator,
            r.condition_fn() == condition,
    {
        When { validator, condition }
    }
}

impl<V: Validator<T>, F: Fn() -> bool, T: ?Sized> Validator<T> for When<V, F> {
    /// The inner validator's outcome when the condition holds, else success.
    open spec fn gives(&self, value: &T, path: Seq<char>, r: ConfigValidation<()>) -> bool {
        exists|holds: bool|
            {
                &&& #[trigger] self.condition_fn().ensures((), holds)
                &&& holds ==> self.guarded().gives(value, path, r)
                &&& !holds ==> r is Success
            }
    }

    fn validate(&self, value: &T, path: &str) -> (r: ConfigValidation<()>) {
        proof {
            use_type_invariant(self);
        }
        let holds = (self.condition)();
        assert(self.condition_fn().ensures((), holds));
        if holds {
            self.validator.validate(value, path)
        } else {
            Validation::Success(())
        }
    }
}

/// A validator made from a function of the value and its path.
pub struct Custom<T: ?Sized, F: Fn(&T, &str) -> ConfigValidation<()>> {
    f: F,
    marker: core::marker::PhantomData<T>,
}

impl<T: ?Sized, F: Fn(&T, &str) -> ConfigValidation<()>> Custom<T, F> {
    #[verifier::type_invariant]
    spec fn callable(self) -> bool {
        forall|v: &T, p: &str| self.f.requires((v, p))
    }

    /// The function that decides.
    pub closed spec fn func(&self) -> F {
        self.f
    }
}

/// A validator from a function of the value and its path.
pub fn custom<T: ?Sized, F: Fn(&T, &str) -> ConfigValidation<()>>(f: F) -> (r: Custom<T, F>)
    requires
        forall|v: &T, p: &str| f.requires((v, p)),
    ensures
        r.func() == f,
{
    Custom { f, marker: core::marker::PhantomData }
}

impl<T: ?Sized, F: Fn(&T, &str) -> ConfigValidation<()>> Validator<T> for Custom<T, F> {
    /// What the function gives for the value and path.
    open spec fn gives(&self, value: &T, path: Seq<char>, r: ConfigValidation<()>) -> bool {
        exists|p: &str| p@ == path && #[trigger] self.func().ensures((value, p), r)
    }

    fn validate(&self, value: &T, path: &str) -> (r: ConfigValidation<()>) {
        proof {
            use_type_invariant(self);
        }
        let r = (self.f)(value, path);
        assert(self.func().ensures((value, path), r));
        r
    }
}

} // verus!
