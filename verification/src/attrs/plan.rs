//! What a derived `validate` does with the validation read from a struct:
//! which check it makes on each field, in which order, and how a field's
//! message override and `#[sensitive]` mark rewrite the errors of a check.
use vstd::prelude::*;

use crate::attrs::{
    attr_view, attrs_view, has_nested, has_skip, FieldValidation, FieldValidationV, MessageOverride,
    ValidatorAttr, ValidatorAttrV,
};
use crate::error::{error_views, opt_text_view, ConfigError, ConfigErrorV, ConfigErrors};
use crate::text::{reverse_vec, string_from};

verus! {

/// The pattern an IP address must match (dotted IPv4, or full IPv6).
pub const IP_PATTERN: &'static str = "^(\\d{1,3}\\.){3}\\d{1,3}$|^([0-9a-fA-F]{1,4}:){7}[0-9a-fA-F]{1,4}$";

/// The pattern a UUID must match.
pub const UUID_PATTERN: &'static str = "^[0-9a-fA-F]{8}-[0-9a-fA-F]{4}-[0-9a-fA-F]{4}-[0-9a-fA-F]{4}-[0-9a-fA-F]{12}$";

/// One check of a field.
#[derive(Debug)]
pub enum CheckPlan {
    /// Run `validator` on the field; its validation errors then carry
    /// `message` where one is given, and no value where `sensitive`.
    Run { validator: ValidatorAttr, message: Option<String>, sensitive: bool },
    /// Call the named function with the whole struct.
    Call(String),
    /// Nothing to check.
    Succeed,
}

/// The mathematical model of a `CheckPlan`.
pub ghost enum CheckPlanV {
    Run { validator: ValidatorAttrV, message: Option<Seq<char>>, sensitive: bool },
    Call(Seq<char>),
    Succeed,
}

impl View for CheckPlan {
    type V = CheckPlanV;

    open spec fn view(&self) -> CheckPlanV {
        match *self {
            CheckPlan::Run { validator, message, sensitive } => CheckPlanV::Run {
                validator: validator@,
                message: opt_text_view(message),
                sensitive,
            },
            CheckPlan::Call(f) => CheckPlanV::Call(f@),
            CheckPlan::Succeed => CheckPlanV::Succeed,
        }
    }
}

/// A check, made only where its condition (an expression over the struct)
/// holds, if it has one.
#[derive(Debug)]
pub struct GuardedCheck {
    pub condition: Option<String>,
    pub check: CheckPlan,
}

/// The mathematical model of a `GuardedCheck`.
pub ghost struct GuardedCheckV {
    pub condition: Option<Seq<char>>,
    pub check: CheckPlanV,
}

impl View for GuardedCheck {
    type V = GuardedCheckV;

    open spec fn view(&self) -> GuardedCheckV {
        GuardedCheckV { condition: opt_text_view(self.condition), check: self.check@ }
    }
}

pub open spec fn checks_view(s: Seq<GuardedCheck>) -> Seq<GuardedCheckV> {
    s.map_values(|c: GuardedCheck| c@)
}

/// How a field is validated.
#[derive(Debug)]
pub enum FieldPlan {
    /// By the field's own `Validate`; an optional field is checked only when present.
    Nested { optional: bool },
    /// By every one of these checks, their errors accumulated in order.
    Checks(Vec<GuardedCheck>),
}

/// The mathematical model of a `FieldPlan`.
pub ghost enum FieldPlanV {
    Nested { optional: bool },
    Checks(Seq<GuardedCheckV>),
}

impl View for FieldPlan {
    type V = FieldPlanV;

    open spec fn view(&self) -> FieldPlanV {
        match *self {
            FieldPlan::Nested { optional } => FieldPlanV::Nested { optional },
            FieldPlan::Checks(cs) => FieldPlanV::Checks(checks_view(cs@)),
        }
    }
}

pub open spec fn or_default(m: Option<Seq<char>>, d: Seq<char>) -> Option<Seq<char>> {
    match m {
        Some(s) => Some(s),
        None => Some(d),
    }
}

/// The check that one validator makes on a field.
pub open spec fn validator_check_spec(
    v: ValidatorAttrV,
    msg: Option<Seq<char>>,
    sensitive: bool,
) -> CheckPlanV {
    match v {
        ValidatorAttrV::Ip => CheckPlanV::Run {
            validator: ValidatorAttrV::Pattern(IP_PATTERN@),
            message: or_default(msg, "value is not a valid IP address"@),
            sensitive,
        },
        ValidatorAttrV::Uuid => CheckPlanV::Run {
            validator: ValidatorAttrV::Pattern(UUID_PATTERN@),
            message: or_default(msg, "value is not a valid UUID"@),
            sensitive,
        },
        ValidatorAttrV::Custom(f) => CheckPlanV::Call(f),
        ValidatorAttrV::Nested => CheckPlanV::Succeed,
        ValidatorAttrV::Skip => CheckPlanV::Succeed,
        ValidatorAttrV::When(_, _) => CheckPlanV::Succeed,
        _ => CheckPlanV::Run { validator: v, message: msg, sensitive },
    }
}

/// A copy of a validator.
pub fn clone_attr(v: &ValidatorAttr) -> (r: ValidatorAttr)
    ensures
        r@ == v@,
    decreases v,
{
    match v {
        ValidatorAttr::NonEmpty => ValidatorAttr::NonEmpty,
        ValidatorAttr::MinLength(n) => ValidatorAttr::MinLength(*n),
        ValidatorAttr::MaxLength(n) => ValidatorAttr::MaxLength(*n),
        ValidatorAttr::Length(a, b) => ValidatorAttr::Length(*a, *b),
        ValidatorAttr::Pattern(p) => ValidatorAttr::Pattern(p.clone()),
        ValidatorAttr::Email => ValidatorAttr::Email,
        ValidatorAttr::Url => ValidatorAttr::Url,
        ValidatorAttr::Ip => ValidatorAttr::Ip,
        ValidatorAttr::Uuid => ValidatorAttr::Uuid,
        ValidatorAttr::Range(a, b) => ValidatorAttr::Range(a.clone(), b.clone()),
        ValidatorAttr::Positive => ValidatorAttr::Positive,
        ValidatorAttr::Negative => ValidatorAttr::Negative,
        ValidatorAttr::NonZero => ValidatorAttr::NonZero,
        ValidatorAttr::FileExists => ValidatorAttr::FileExists,
        ValidatorAttr::DirExists => ValidatorAttr::DirExists,
        ValidatorAttr::ParentExists => ValidatorAttr::ParentExists,
        ValidatorAttr::Extension(e) => ValidatorAttr::Extension(e.clone()),
        ValidatorAttr::Nested => ValidatorAttr::Nested,
        ValidatorAttr::Each(inner) => ValidatorAttr::Each(Box::new(clone_attr(inner))),
        ValidatorAttr::Skip => ValidatorAttr::Skip,
        ValidatorAttr::Custom(f) => ValidatorAttr::Custom(f.clone()),
        ValidatorAttr::When(c, inner) => ValidatorAttr::When(c.clone(), Box::new(clone_attr(inner))),
    }
}

fn clone_opt_text(o: &Option<String>) -> (r: Option<String>)
    ensures
        opt_text_view(r) == opt_text_view(*o),
{
    match o {
        Some(s) => Some(s.clone()),
        None => None,
    }
}

/// The check that one validator makes on a field: `ip` and `uuid` are
/// patterns with a message of their own unless the field gives one, `each`
/// runs with its inner validator as written (applied to every element),
/// `custom` calls the named function, and `nested`, `skip` and conditional
/// validators check nothing here.
pub fn validator_check(v: &ValidatorAttr, message: &MessageOverride, sensitive: bool) -> (r:
    CheckPlan)
    ensures
        r@ == validator_check_spec(v@, opt_text_view(message.0), sensitive),
{
    let msg = clone_opt_text(&message.0);
    match v {
        ValidatorAttr::Ip => CheckPlan::Run {
            validator: ValidatorAttr::Pattern(string_from(IP_PATTERN)),
            message: match msg {
                Some(m) => Some(m),
                None => Some(string_from("value is not a valid IP address")),
            },
            sensitive,
        },
        ValidatorAttr::Uuid => CheckPlan::Run {
            validator: ValidatorAttr::Pattern(string_from(UUID_PATTERN)),
            message: match msg {
                Some(m) => Some(m),
                None => Some(string_from("value is not a valid UUID")),
            },
            sensitive,
        },
        ValidatorAttr::Custom(f) => CheckPlan::Call(f.clone()),
        ValidatorAttr::Nested | ValidatorAttr::Skip | ValidatorAttr::When(_, _) => CheckPlan::Succeed,
        _ => CheckPlan::Run { validator: clone_attr(v), message: msg, sensitive },
    }
}

/// The unconditional checks of a field, in order.
pub open spec fn regular_checks(vs: Seq<ValidatorAttrV>, msg: Option<Seq<char>>, sensitive: bool) -> Seq<
    GuardedCheckV,
>
    decreases vs.len(),
{
    if vs.len() == 0 {
        Seq::empty()
    } else if vs.last() is When {
        regular_checks(vs.drop_last(), msg, sensitive)
    } else {
        regular_checks(vs.drop_last(), msg, sensitive).push(
            GuardedCheckV { condition: None, check: validator_check_spec(vs.last(), msg, sensitive) },
        )
    }
}

/// The conditional checks of a field, in order.
pub open spec fn conditional_checks(
    vs: Seq<ValidatorAttrV>,
    msg: Option<Seq<char>>,
    sensitive: bool,
) -> Seq<GuardedCheckV>
    decreases vs.len(),
{
    if vs.len() == 0 {
        Seq::empty()
    } else {
        match vs.last() {
            ValidatorAttrV::When(c, inner) => conditional_checks(vs.drop_last(), msg, sensitive).push(
                GuardedCheckV {
                    condition: Some(c),
                    check: validator_check_spec(*inner, msg, sensitive),
                },
            ),
            _ => conditional_checks(vs.drop_last(), msg, sensitive),
        }
    }
}

/// How a field with this validation is checked: not at all when it is
/// skipped or has no validators, by its own `Validate` when nested, and
/// otherwise by its unconditional checks followed by its conditional ones.
pub open spec fn field_plan_spec(fv: FieldValidationV, optional: bool) -> Option<FieldPlanV> {
    if has_skip(fv.validators) {
        None
    } else if has_nested(fv.validators) {
        Some(FieldPlanV::Nested { optional })
    } else if fv.validators.len() == 0 {
        None
    } else {
        Some(
            FieldPlanV::Checks(
                regular_checks(fv.validators, fv.message, fv.sensitive) + conditional_checks(
                    fv.validators,
                    fv.message,
                    fv.sensitive,
                ),
            ),
        )
    }
}

pub open spec fn opt_plan_view(p: Option<FieldPlan>) -> Option<FieldPlanV> {
    match p {
        Some(p) => Some(p@),
        None => None,
    }
}

/// How a field is checked; `optional` says whether its type is an `Option`.
pub fn plan_field(validation: &FieldValidation, optional: bool) -> (r: Option<FieldPlan>)
    ensures
        opt_plan_view(r) == field_plan_spec(validation@, optional),
{
    let vs = &validation.validators;
    let ghost vv = attrs_view(vs@);
    let mut skip = false;
    let mut nested = false;
    let mut i: usize = 0;
    while i < vs.len()
        invariant
            i <= vs.len(),
            vv == attrs_view(vs@),
            skip == (exists|j: int| 0 <= j < i && #[trigger] vv[j] is Skip),
            nested == (exists|j: int| 0 <= j < i && #[trigger] vv[j] is Nested),
        decreases vs.len() - i,
    {
        assert(vv[i as int] == vs@[i as int]@);
        if vs[i].is_skip() {
            skip = true;
        }
        if vs[i].is_nested() {
            nested = true;
        }
        i = i + 1;
    }
    assert(vv.len() == vs@.len());
    if skip {
        return None;
    }
    if nested {
        return Some(FieldPlan::Nested { optional });
    }
    if vs.len() == 0 {
        return None;
    }
    let ghost msg = opt_text_view(validation.message.0);
    let sensitive = validation.sensitive;
    let mut regular: Vec<GuardedCheck> = Vec::new();
    let mut conditional: Vec<GuardedCheck> = Vec::new();
    let mut k: usize = 0;
    while k < vs.len()
        invariant
            k <= vs.len(),
            vv == attrs_view(vs@),
            vv.len() == vs@.len(),
            vs == &validation.validators,
            msg == opt_text_view(validation.message.0),
            sensitive == validation.sensitive,
            checks_view(regular@) == regular_checks(vv.take(k as int), msg, sensitive),
            checks_view(conditional@) == conditional_checks(vv.take(k as int), msg, sensitive),
        decreases vs.len() - k,
    {
        let ghost before_r = regular@;
        let ghost before_c = conditional@;
        assert(vv.take(k + 1).drop_last() =~= vv.take(k as int));
        assert(vv.take(k + 1).last() == vs@[k as int]@);
        match &vs[k] {
            ValidatorAttr::When(c, inner) => {
                let check = validator_check(inner, &validation.message, sensitive);
                let g = GuardedCheck { condition: Some(c.clone()), check };
                conditional.push(g);
                assert(checks_view(conditional@) =~= checks_view(before_c).push(g@));
                assert(checks_view(regular@) =~= checks_view(before_r));
            },
            other => {
                let check = validator_check(other, &validation.message, sensitive);
                let g = GuardedCheck { condition: None, check };
                regular.push(g);
                assert(checks_view(regular@) =~= checks_view(before_r).push(g@));
                assert(checks_view(conditional@) =~= checks_view(before_c));
            },
        }
        k = k + 1;
    }
    assert(vv.take(k as int) =~= vv);
    let ghost rv = regular@;
    let ghost cv = conditional@;
    regular.append(&mut conditional);
    assert(checks_view(regular@) =~= checks_view(rv) + checks_view(cv));
    Some(FieldPlan::Checks(regular))
}

pub open spec fn plans_of(
    fields: Seq<(Seq<char>, FieldValidationV, bool)>,
) -> Seq<(Seq<char>, FieldPlanV)>
    decreases fields.len(),
{
    if fields.len() == 0 {
        Seq::empty()
    } else {
        let last = fields.last();
        match field_plan_spec(last.1, last.2) {
            Some(p) => plans_of(fields.drop_last()).push((last.0, p)),
            None => plans_of(fields.drop_last()),
        }
    }
}

pub open spec fn fields_in_view(s: Seq<(String, FieldValidation, bool)>) -> Seq<
    (Seq<char>, FieldValidationV, bool),
> {
    s.map_values(|f: (String, FieldValidation, bool)| (f.0@, f.1@, f.2))
}

pub open spec fn plans_view(s: Seq<(String, FieldPlan)>) -> Seq<(Seq<char>, FieldPlanV)> {
    s.map_values(|p: (String, FieldPlan)| (p.0@, p.1@))
}

/// The fields that the derived `validate` checks, each with its plan, in
/// field order; each field is given with its validation and whether its
/// type is an `Option`.
pub fn plan_fields(fields: &[(String, FieldValidation, bool)]) -> (r: Vec<(String, FieldPlan)>)
    ensures
        plans_view(r@) == plans_of(fields_in_view(fields@)),
{
    let ghost fv = fields_in_view(fields@);
    let mut out: Vec<(String, FieldPlan)> = Vec::new();
    let mut i: usize = 0;
    assert(plans_view(out@) =~= plans_of(fv.take(0)));
    while i < fields.len()
        invariant
            i <= fields.len(),
            fv == fields_in_view(fields@),
            fv.len() == fields@.len(),
            plans_view(out@) == plans_of(fv.take(i as int)),
        decreases fields.len() - i,
    {
        assert(fv.take(i + 1).drop_last() =~= fv.take(i as int));
        assert(fv.take(i + 1).last() == (fields@[i as int].0@, fields@[i as int].1@, fields@[i as int].2));
        let ghost before = out@;
        match plan_field(&fields[i].1, fields[i].2) {
            Some(p) => {
                let entry = (fields[i].0.clone(), p);
                out.push(entry);
                assert(plans_view(out@) =~= plans_view(before).push((entry.0@, entry.1@)));
            },
            None => {},
        }
        i = i + 1;
    }
    assert(fv.take(i as int) =~= fv);
    out
}

/// A validation error of a field after the field's message override and
/// `#[sensitive]` mark: the override replaces the message, the mark drops
/// the value; other errors pass unchanged.
pub open spec fn overridden(e: ConfigErrorV, msg: Option<Seq<char>>, sensitive: bool) -> ConfigErrorV {
    match e {
        ConfigErrorV::ValidationError { path, source_location, value, message } =>
            ConfigErrorV::ValidationError {
            path,
            source_location,
            value: if sensitive {
                None
            } else {
                value
            },
            message: match msg {
                Some(m) => m,
                None => message,
            },
        },
        _ => e,
    }
}

fn override_error(e: ConfigError, message: &MessageOverride, sensitive: bool) -> (r: ConfigError)
    ensures
        r@ == overridden(e@, opt_text_view(message.0), sensitive),
{
    match e {
        ConfigError::ValidationError { path, source_location, value, message: m } =>
            ConfigError::ValidationError {
            path,
            source_location,
            value: if sensitive {
                None
            } else {
                value
            },
            message: match &message.0 {
                Some(custom) => custom.clone(),
                None => m,
            },
        },
        other => other,
    }
}

/// The errors of one check of a field, rewritten by the field's message
/// override and `#[sensitive]` mark.
pub fn override_errors(errors: ConfigErrors, message: &MessageOverride, sensitive: bool) -> (r:
    ConfigErrors)
    ensures
        r@ == Seq::new(
            errors@.len(),
            |i: int| overridden(errors@[i], opt_text_view(message.0), sensitive),
        ),
{
    let ghost old_view = errors@;
    let all_vec = errors.into_vec();
    let ghost all = all_vec@;
    let n: usize = all_vec.len();
    let mut rest = reverse_vec(all_vec);
    let mut out: Vec<ConfigError> = Vec::new();
    let mut i: usize = 0;
    while i < n
        invariant
            n == all.len(),
            n > 0,
            i <= n,
            rest@.len() == n - i,
            forall|j: int| 0 <= j < n - i ==> rest@[j] == all[n - 1 - j],
            error_views(out@) =~= Seq::new(
                i as nat,
                |j: int| overridden(all[j]@, opt_text_view(message.0), sensitive),
            ),
            old_view == error_views(all),
        decreases n - i,
    {
        let e = rest.pop().unwrap();
        assert(e == all[i as int]);
        let ghost before = error_views(out@);
        let f = override_error(e, message, sensitive);
        out.push(f);
        assert(error_views(out@) =~= before.push(f@));
        i = i + 1;
    }
    ConfigErrors::from_vec(out).unwrap()
}

} // verus!
