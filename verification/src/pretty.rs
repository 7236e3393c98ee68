//! Pretty printing for configuration errors: colored, grouped output with
//! suggestions, redaction of sensitive values and truncation.
use vstd::prelude::*;

use crate::error::{
    error_location, error_suggestion, error_views, group_by_source, group_views, groups_spec,
    kind_text, ConfigError, ConfigErrorV, ConfigErrors,
};
use crate::text::{
    concat2, contains_spec, contains_str, join_spec, lowercase_spec, nat_decimal, string_from,
    to_lowercase, usize_to_string,
};

verus! {

// ---------------------------------------------------------------------------
// Options
// ---------------------------------------------------------------------------

/// Color output option.
#[derive(Debug, Clone, Copy, PartialEq, Eq)]
pub enum ColorOption {
    /// Auto-detect based on terminal capability.
    Auto,
    /// Always use colors.
    Always,
    /// Never use colors.
    Never,
}

/// Options for pretty printing errors.
#[derive(Debug, Clone, Copy)]
pub struct PrettyPrintOptions {
    /// Enable colored output (auto-detected by default).
    pub color: ColorOption,
    /// Group errors by source.
    pub group_by_source: bool,
    /// Show fix suggestions.
    pub show_suggestions: bool,
    /// Maximum errors to display (None for all).
    pub max_errors: Option<usize>,
    /// Redact sensitive values.
    pub redact_sensitive: bool,
}

impl Default for PrettyPrintOptions {
    /// Auto color, grouped, with suggestions, at most 20 errors, redacted.
    fn default() -> (r: Self)
        ensures
            r == (PrettyPrintOptions {
                color: ColorOption::Auto,
                group_by_source: true,
                show_suggestions: true,
                max_errors: Some(20),
                redact_sensitive: true,
            }),
    {
        PrettyPrintOptions {
            color: ColorOption::Auto,
            group_by_source: true,
            show_suggestions: true,
            max_errors: Some(20),
            redact_sensitive: true,
        }
    }
}

impl PrettyPrintOptions {
    /// The defaults with colors disabled.
    pub fn no_color() -> (r: Self)
        ensures
            r == (PrettyPrintOptions {
                color: ColorOption::Never,
                group_by_source: true,
                show_suggestions: true,
                max_errors: Some(20),
                redact_sensitive: true,
            }),
    {
        PrettyPrintOptions { color: ColorOption::Never, ..Default::default() }
    }

    /// The defaults without truncation.
    pub fn show_all() -> (r: Self)
        ensures
            r == (PrettyPrintOptions {
                color: ColorOption::Auto,
                group_by_source: true,
                show_suggestions: true,
                max_errors: None,
                redact_sensitive: true,
            }),
    {
        PrettyPrintOptions { max_errors: None, ..Default::default() }
    }

    /// Set the color option.
    pub fn with_color(self, color: ColorOption) -> (r: Self)
        ensures
            r == (PrettyPrintOptions { color, ..self }),
    {
        PrettyPrintOptions { color, ..self }
    }

    /// Set whether to group by source.
    pub fn with_grouping(self, group: bool) -> (r: Self)
        ensures
            r == (PrettyPrintOptions { group_by_source: group, ..self }),
    {
        PrettyPrintOptions { group_by_source: group, ..self }
    }

    /// Set whether to show suggestions.
    pub fn with_suggestions(self, show: bool) -> (r: Self)
        ensures
            r == (PrettyPrintOptions { show_suggestions: show, ..self }),
    {
        PrettyPrintOptions { show_suggestions: show, ..self }
    }

    /// Set the maximum number of errors to display.
    pub fn with_max_errors(self, max: Option<usize>) -> (r: Self)
        ensures
            r == (PrettyPrintOptions { max_errors: max, ..self }),
    {
        PrettyPrintOptions { max_errors: max, ..self }
    }

    /// Set whether to redact sensitive values.
    pub fn with_redaction(self, redact: bool) -> (r: Self)
        ensures
            r == (PrettyPrintOptions { redact_sensitive: redact, ..self }),
    {
        PrettyPrintOptions { redact_sensitive: redact, ..self }
    }
}

// ---------------------------------------------------------------------------
// Colors
// ---------------------------------------------------------------------------

/// ANSI color codes for terminal output (all empty when colors are off).
pub struct Colors {
    pub error: &'static str,
    pub warning: &'static str,
    pub info: &'static str,
    pub path: &'static str,
    pub value: &'static str,
    pub hint: &'static str,
    pub reset: &'static str,
}

pub ghost struct ColorsV {
    pub error: Seq<char>,
    pub warning: Seq<char>,
    pub info: Seq<char>,
    pub path: Seq<char>,
    pub value: Seq<char>,
    pub hint: Seq<char>,
    pub reset: Seq<char>,
}

impl View for Colors {
    type V = ColorsV;

    open spec fn view(&self) -> ColorsV {
        ColorsV {
            error: self.error@,
            warning: self.warning@,
            info: self.info@,
            path: self.path@,
            value: self.value@,
            hint: self.hint@,
            reset: self.reset@,
        }
    }
}

/// The codes in use: bold red, bold yellow, bold cyan, bold white, yellow,
/// green and reset, or none at all.
pub open spec fn colors_spec(enabled: bool) -> ColorsV {
    if enabled {
        ColorsV {
            error: "\x1b[1;31m"@,
            warning: "\x1b[1;33m"@,
            info: "\x1b[1;36m"@,
            path: "\x1b[1;37m"@,
            value: "\x1b[33m"@,
            hint: "\x1b[32m"@,
            reset: "\x1b[0m"@,
        }
    } else {
        ColorsV {
            error: ""@,
            warning: ""@,
            info: ""@,
            path: ""@,
            value: ""@,
            hint: ""@,
            reset: ""@,
        }
    }
}

impl Colors {
    pub fn enabled() -> (r: Self)
        ensures
            r@ == colors_spec(true),
    {
        Colors {
            error: "\x1b[1;31m",
            warning: "\x1b[1;33m",
            info: "\x1b[1;36m",
            path: "\x1b[1;37m",
            value: "\x1b[33m",
            hint: "\x1b[32m",
            reset: "\x1b[0m",
        }
    }

    pub fn disabled() -> (r: Self)
        ensures
            r@ == colors_spec(false),
    {
        Colors { error: "", warning: "", info: "", path: "", value: "", hint: "", reset: "" }
    }
}

// ---------------------------------------------------------------------------
// Sensitive paths
// ---------------------------------------------------------------------------

/// A path that names a password, secret, key, token or credential (in any
/// case).
pub open spec fn is_sensitive_spec(path: Seq<char>) -> bool {
    let lower = lowercase_spec(path);
    contains_spec(lower, "password"@) || contains_spec(lower, "secret"@) || contains_spec(
        lower,
        "key"@,
    ) || contains_spec(lower, "token"@) || contains_spec(lower, "credential"@) || contains_spec(
        lower,
        "api_key"@,
    )
}

/// Check if a config path appears to contain sensitive data.
pub fn is_sensitive_path(path: &str) -> (r: bool)
    ensures
        r == is_sensitive_spec(path@),
{
    let lower = to_lowercase(path);
    let l = lower.as_str();
    contains_str(l, "password") || contains_str(l, "secret") || contains_str(l, "key")
        || contains_str(l, "token") || contains_str(l, "credential") || contains_str(l, "api_key")
}

// ---------------------------------------------------------------------------
// The text of the report
// ---------------------------------------------------------------------------

/// What the printer needs to know besides the errors.
pub ghost struct PrintContext {
    pub c: ColorsV,
    pub redact: bool,
    pub max: Option<usize>,
    pub total: int,
}

pub open spec fn redacted(ctx: PrintContext, value: Seq<char>, path: Seq<char>) -> Seq<char> {
    if ctx.redact && is_sensitive_spec(path) {
        "[REDACTED]"@
    } else {
        value
    }
}

pub open spec fn bullet(c: ColorsV) -> Seq<char> {
    "    "@ + c.error + "•"@ + c.reset + " "@
}

pub open spec fn colored_paths(c: ColorsV, paths: Seq<Seq<char>>) -> Seq<Seq<char>> {
    paths.map_values(|p: Seq<char>| c.path + p + c.reset)
}

/// The line printed for one error.
pub open spec fn error_line(ctx: PrintContext, e: ConfigErrorV) -> Seq<char> {
    let c = ctx.c;
    match e {
        ConfigErrorV::MissingField { path, .. } => bullet(c) + "missing required field '"@ + c.path
            + path + c.reset + "'\n"@,
        ConfigErrorV::ParseError { path, expected_type, actual_value, message, .. } => bullet(c)
            + "'"@ + c.path + path + c.reset + "': expected "@ + expected_type + ", got \""@
            + c.value + redacted(ctx, actual_value, path) + c.reset + "\": "@ + message + "\n"@,
        ConfigErrorV::ValidationError { path, value, message, .. } => bullet(c) + "'"@ + c.path
            + path + c.reset + "' = "@ + c.value + match value {
            Some(v) => redacted(ctx, v, path),
            None => "[no value]"@,
        } + c.reset + ": "@ + message + "\n"@,
        ConfigErrorV::CrossFieldError { paths, message } => bullet(c) + "["@ + join_spec(
            colored_paths(c, paths),
            ", "@,
        ) + "]: "@ + message + "\n"@,
        ConfigErrorV::UnknownField { path, did_you_mean, .. } => "    "@ + c.warning + "•"@
            + c.reset + " unknown field '"@ + c.path + path + c.reset + "'"@ + match did_you_mean {
            Some(s) => "; did you mean '"@ + c.hint + s + c.reset + "'?"@,
            None => Seq::empty(),
        } + "\n"@,
        ConfigErrorV::SourceError { source_name, kind } => bullet(c) + source_name + ": "@
            + kind_text(kind) + "\n"@,
        ConfigErrorV::NoSources => bullet(c) + "no configuration sources provided\n"@,
    }
}

pub open spec fn limit_hit(max: Option<usize>, shown: int) -> bool {
    match max {
        Some(m) => shown >= m,
        None => false,
    }
}

/// The line that ends a truncated report.
pub open spec fn more_text(c: ColorsV, remaining: int) -> Seq<char> {
    "\n  "@ + c.warning + "...and "@ + nat_decimal(remaining as nat) + " more errors"@ + c.reset
        + "\n\n"@
}

/// The lines for `es` once `shown` errors have been printed, and whether
/// the limit was reached among them.
pub open spec fn members_text(ctx: PrintContext, es: Seq<ConfigErrorV>, shown: int) -> (
    Seq<char>,
    bool,
)
    decreases es.len(),
{
    if es.len() == 0 {
        (Seq::empty(), false)
    } else if limit_hit(ctx.max, shown) {
        (more_text(ctx.c, ctx.total - shown), true)
    } else {
        let rest = members_text(ctx, es.drop_first(), shown + 1);
        (error_line(ctx, es[0]) + rest.0, rest.1)
    }
}

/// The grouped report: each source as a header with its errors below.
pub open spec fn groups_text(
    ctx: PrintContext,
    g: Seq<(Seq<char>, Seq<ConfigErrorV>)>,
    shown: int,
) -> Seq<char>
    decreases g.len(),
{
    if g.len() == 0 {
        Seq::empty()
    } else {
        let header = "  "@ + ctx.c.info + g[0].0 + ":"@ + ctx.c.reset + "\n"@;
        let m = members_text(ctx, g[0].1, shown);
        if m.1 {
            header + m.0
        } else {
            header + m.0 + "\n"@ + groups_text(ctx, g.drop_first(), shown + g[0].1.len())
        }
    }
}

/// The flat report: the errors in order.
pub open spec fn flat_text(ctx: PrintContext, es: Seq<ConfigErrorV>) -> Seq<char> {
    let m = members_text(ctx, es, 0);
    if m.1 {
        m.0
    } else {
        m.0 + "\n"@
    }
}

/// The first `n` elements (all of them when there are fewer).
pub open spec fn first_n<A>(s: Seq<A>, n: int) -> Seq<A> {
    if s.len() <= n {
        s
    } else {
        s.take(n)
    }
}

/// The first three suggestions of the errors.
pub open spec fn suggestions_of(es: Seq<ConfigErrorV>) -> Seq<Seq<char>> {
    first_n(
        es.filter(|e: ConfigErrorV| error_suggestion(e) is Some).map_values(
            |e: ConfigErrorV| error_suggestion(e)->0,
        ),
        3,
    )
}

pub open spec fn hint_lines(s: Seq<Seq<char>>) -> Seq<char>
    decreases s.len(),
{
    if s.len() == 0 {
        Seq::empty()
    } else {
        hint_lines(s.drop_last()) + "  • "@ + s.last() + "\n"@
    }
}

/// The hints footer (nothing when there are no suggestions).
pub open spec fn suggestions_text(c: ColorsV, s: Seq<Seq<char>>) -> Seq<char> {
    if s.len() == 0 {
        Seq::empty()
    } else {
        c.hint + "Hints:"@ + c.reset + "\n"@ + hint_lines(s) + "\n"@
    }
}

pub open spec fn header_text(c: ColorsV, n: int) -> Seq<char> {
    "\n"@ + c.error + "Configuration errors ("@ + nat_decimal(n as nat) + "):"@ + c.reset + "\n\n"@
}

pub open spec fn context_of(opts: PrettyPrintOptions, c: ColorsV, total: int) -> PrintContext {
    PrintContext { c, redact: opts.redact_sensitive, max: opts.max_errors, total }
}

/// The whole report; the grouped body is given by the groups (which
/// `groups_spec` determines from the errors).
pub open spec fn report_text(
    opts: PrettyPrintOptions,
    c: ColorsV,
    es: Seq<ConfigErrorV>,
    g: Seq<(Seq<char>, Seq<ConfigErrorV>)>,
) -> Seq<char> {
    let ctx = context_of(opts, c, es.len() as int);
    header_text(c, es.len() as int) + if opts.group_by_source {
        groups_text(ctx, g, 0)
    } else {
        flat_text(ctx, es)
    } + if opts.show_suggestions {
        suggestions_text(c, suggestions_of(es))
    } else {
        Seq::empty()
    }
}

// ---------------------------------------------------------------------------
// The printer
// ---------------------------------------------------------------------------

/// Formats errors into report text.
pub struct ErrorPrinter<'a> {
    pub options: &'a PrettyPrintOptions,
    pub colors: Colors,
}

impl<'a> ErrorPrinter<'a> {
    pub open spec fn ctx(&self, total: int) -> PrintContext {
        context_of(*self.options, self.colors@, total)
    }

    pub fn new(options: &'a PrettyPrintOptions, use_color: bool) -> (r: Self)
        ensures
            r.options == options,
            r.colors@ == colors_spec(use_color),
    {
        let colors = if use_color {
            Colors::enabled()
        } else {
            Colors::disabled()
        };
        ErrorPrinter { options, colors }
    }

    /// The value as shown: `[REDACTED]` for a sensitive path when redaction
    /// is on.
    pub fn maybe_redact(&self, value: &str, path: &str) -> (r: String)
        ensures
            r@ == redacted(self.ctx(0), value@, path@),
    {
        if self.options.redact_sensitive && is_sensitive_path(path) {
            string_from("[REDACTED]")
        } else {
            string_from(value)
        }
    }

    fn push_bullet(&self, r: &mut String)
        ensures
            final(r)@ == old(r)@ + bullet(self.colors@),
    {
        r.append("    ");
        r.append(self.colors.error);
        r.append("•");
        r.append(self.colors.reset);
        r.append(" ");
    }

    fn push_path(&self, r: &mut String, path: &str)
        ensures
            final(r)@ == old(r)@ + self.colors@.path + path@ + self.colors@.reset,
    {
        r.append(self.colors.path);
        r.append(path);
        r.append(self.colors.reset);
    }

    /// The line for one error.
    pub fn print_error(&self, error: &ConfigError) -> (r: String)
        ensures
            forall|t: int| r@ == error_line(#[trigger] self.ctx(t), error@),
    {
        let c = &self.colors;
        let mut r = String::new();
        match error {
            ConfigError::MissingField { path, .. } => {
                self.push_bullet(&mut r);
                r.append("missing required field '");
                self.push_path(&mut r, path.as_str());
                r.append("'\n");
            },
            ConfigError::ParseError { path, expected_type, actual_value, message, .. } => {
                let shown = self.maybe_redact(actual_value.as_str(), path.as_str());
                self.push_bullet(&mut r);
                r.append("'");
                self.push_path(&mut r, path.as_str());
                r.append("': expected ");
                r.append(expected_type.as_str());
                r.append(", got \"");
                r.append(c.value);
                r.append(shown.as_str());
                r.append(c.reset);
                r.append("\": ");
                r.append(message.as_str());
                r.append("\n");
            },
            ConfigError::ValidationError { path, value, message, .. } => {
                let shown = match value {
                    Some(v) => self.maybe_redact(v.as_str(), path.as_str()),
                    None => string_from("[no value]"),
                };
                self.push_bullet(&mut r);
                r.append("'");
                self.push_path(&mut r, path.as_str());
                r.append("' = ");
                r.append(c.value);
                r.append(shown.as_str());
                r.append(c.reset);
                r.append(": ");
                r.append(message.as_str());
                r.append("\n");
            },
            ConfigError::CrossFieldError { paths, message } => {
                let mut colored: Vec<String> = Vec::new();
                let mut i: usize = 0;
                while i < paths.len()
                    invariant
                        i <= paths@.len(),
                        crate::text::views(colored@) == colored_paths(
                            c@,
                            crate::text::views(paths@),
                        ).take(i as int),
                    decreases paths@.len() - i,
                {
                    let mut p = string_from(c.path);
                    p.append(paths[i].as_str());
                    p.append(c.reset);
                    let ghost pv = p@;
                    let ghost before = colored@;
                    colored.push(p);
                    assert(colored@ == before.push(p));
                    assert(crate::text::views(colored@) =~= crate::text::views(before).push(pv));
                    assert(crate::text::views(paths@)[i as int] == paths@[i as int]@);
                    assert(crate::text::views(colored@) =~= colored_paths(
                        c@,
                        crate::text::views(paths@),
                    ).take(i + 1));
                    i = i + 1;
                }
                assert(colored_paths(c@, crate::text::views(paths@)).take(paths@.len() as int)
                    =~= colored_paths(c@, crate::text::views(paths@)));
                self.push_bullet(&mut r);
                r.append("[");
                r.append(crate::text::join_strs(&colored, ", ").as_str());
                r.append("]: ");
                r.append(message.as_str());
                r.append("\n");
            },
            ConfigError::UnknownField { path, did_you_mean, .. } => {
                r.append("    ");
                r.append(c.warning);
                r.append("•");
                r.append(c.reset);
                r.append(" unknown field '");
                self.push_path(&mut r, path.as_str());
                r.append("'");
                match did_you_mean {
                    Some(s) => {
                        r.append("; did you mean '");
                        r.append(c.hint);
                        r.append(s.as_str());
                        r.append(c.reset);
                        r.append("'?");
                    },
                    None => {},
                }
                r.append("\n");
            },
            ConfigError::SourceError { source_name, kind } => {
                self.push_bullet(&mut r);
                r.append(source_name.as_str());
                r.append(": ");
                r.append(kind.to_display_string().as_str());
                r.append("\n");
            },
            ConfigError::NoSources => {
                self.push_bullet(&mut r);
                r.append("no configuration sources provided\n");
            },
        }
        r
    }
}

proof fn lemma_members_step(ctx: PrintContext, es: Seq<ConfigErrorV>, i: int, shown: int)
    requires
        0 <= i < es.len(),
        !limit_hit(ctx.max, shown),
    ensures
        members_text(ctx, es.skip(i), shown) == (
            error_line(ctx, es[i]) + members_text(ctx, es.skip(i + 1), shown + 1).0,
            members_text(ctx, es.skip(i + 1), shown + 1).1,
        ),
{
    assert(es.skip(i).drop_first() =~= es.skip(i + 1));
    assert(es.skip(i)[0] == es[i]);
}

proof fn lemma_group_sizes_take(g: Seq<(Seq<char>, Seq<ConfigErrorV>)>, n: int)
    requires
        0 <= n < g.len(),
    ensures
        crate::error::group_sizes(g.take(n + 1)) == crate::error::group_sizes(g.take(n)) + g[n].1.len(),
        crate::error::group_sizes(g.take(n + 1)) <= crate::error::group_sizes(g),
{
    assert(g.take(n + 1).drop_last() =~= g.take(n));
    assert(g =~= g.take(n + 1) + g.skip(n + 1));
    crate::error::lemma_group_sizes_concat(g.take(n + 1), g.skip(n + 1));
    crate::error::lemma_group_sizes_nonneg(g.skip(n + 1));
}

impl<'a> ErrorPrinter<'a> {
    fn push_more(&self, r: &mut String, remaining: usize)
        ensures
            final(r)@ == old(r)@ + more_text(self.colors@, remaining as int),
    {
        r.append("\n  ");
        r.append(self.colors.warning);
        r.append("...and ");
        r.append(usize_to_string(remaining).as_str());
        r.append(" more errors");
        r.append(self.colors.reset);
        r.append("\n\n");
    }

    /// The lines of `items` after `shown` errors were printed; stops with the
    /// truncation line at the limit.
    fn print_members(
        &self,
        items: &Vec<&ConfigError>,
        shown: usize,
        total: usize,
        r: &mut String,
    ) -> (res: (usize, bool))
        requires
            shown + items@.len() <= total,
        ensures
            final(r)@ == old(r)@ + members_text(
                self.ctx(total as int),
                crate::error::ref_views(items@),
                shown as int,
            ).0,
            res.1 == members_text(
                self.ctx(total as int),
                crate::error::ref_views(items@),
                shown as int,
            ).1,
            res.0 == shown + items@.len(),
    {
        let ghost ctx = self.ctx(total as int);
        let ghost es = crate::error::ref_views(items@);
        let ghost start = r@;
        let mut i: usize = 0;
        let mut count = shown;
        assert(es.skip(0) =~= es);
        while i < items.len()
            invariant
                i <= items@.len(),
                count == shown + i,
                shown + items@.len() <= total,
                es == crate::error::ref_views(items@),
                ctx == self.ctx(total as int),
                members_text(ctx, es, shown as int) == (
                    r@.skip(start.len() as int) + members_text(ctx, es.skip(i as int), count as int).0,
                    members_text(ctx, es.skip(i as int), count as int).1,
                ),
                r@.len() >= start.len(),
                r@.take(start.len() as int) == start,
                start == old(r)@,
            decreases items@.len() - i,
        {
            let limited = match self.options.max_errors {
                Some(max) => count >= max,
                None => false,
            };
            if limited {
                let ghost before = r@;
                assert(before =~= start + before.skip(start.len() as int));
                self.push_more(r, total - count);
                proof {
                    assert(es.skip(i as int).len() > 0);
                    assert(limit_hit(ctx.max, count as int));
                    assert(members_text(ctx, es.skip(i as int), count as int) == (
                        more_text(ctx.c, ctx.total - count),
                        true,
                    ));
                    assert(r@.skip(start.len() as int) =~= before.skip(start.len() as int)
                        + more_text(ctx.c, total - count));
                    assert(r@.take(start.len() as int) =~= start);
                    assert(r@ =~= start + r@.skip(start.len() as int));
                }
                return (shown + items.len(), true);
            }
            let ghost before = r@;
            let line = self.print_error(items[i]);
            r.append(line.as_str());
            proof {
                assert(es[i as int] == items@[i as int]@);
                lemma_members_step(ctx, es, i as int, count as int);
                assert(r@.skip(start.len() as int) =~= before.skip(start.len() as int)
                    + error_line(ctx, es[i as int]));
                assert(r@.take(start.len() as int) =~= start);
            }
            i = i + 1;
            count = count + 1;
        }
        proof {
            assert(es.skip(items@.len() as int) =~= Seq::<ConfigErrorV>::empty());
            assert(r@ =~= start + r@.skip(start.len() as int));
        }
        (count, false)
    }

    /// The flat body: every error in order.
    pub fn print_flat(&self, errors: &ConfigErrors) -> (r: String)
        ensures
            r@ == flat_text(self.ctx(errors@.len() as int), errors@),
    {
        let items = errors.as_slice();
        let mut refs: Vec<&ConfigError> = Vec::new();
        let mut i: usize = 0;
        while i < items.len()
            invariant
                i <= items@.len(),
                crate::error::ref_views(refs@) == error_views(items@).take(i as int),
            decreases items@.len() - i,
        {
            let ghost before = refs@;
            refs.push(&items[i]);
            assert(refs@ == before.push(&items@[i as int]));
            assert(crate::error::ref_views(refs@) =~= crate::error::ref_views(before).push(
                items@[i as int]@,
            ));
            assert(crate::error::ref_views(refs@) =~= error_views(items@).take(i + 1));
            i = i + 1;
        }
        assert(error_views(items@).take(items@.len() as int) =~= errors@);
        let total = items.len();
        let mut r = String::new();
        let (_n, stopped) = self.print_members(&refs, 0, total, &mut r);
        if !stopped {
            r.append("\n");
        }
        r
    }

    /// The grouped body: each source's errors under its name.
    pub fn print_grouped(&self, errors: &ConfigErrors) -> (r: String)
        ensures
            forall|g: Seq<(Seq<char>, Seq<ConfigErrorV>)>|
                groups_spec(errors@, g) ==> r@ == groups_text(
                    self.ctx(errors@.len() as int),
                    g,
                    0,
                ),
    {
        let groups = group_by_source(errors);
        let total = errors.len();
        let ghost ctx = self.ctx(total as int);
        let ghost g = group_views(groups@);
        let mut r = String::new();
        let mut gi: usize = 0;
        let mut shown: usize = 0;
        assert(g.skip(0) =~= g);
        assert(g.take(0) =~= Seq::<(Seq<char>, Seq<ConfigErrorV>)>::empty());
        let ghost result = groups_text(ctx, g, 0);
        while gi < groups.len()
            invariant
                gi <= groups@.len(),
                g == group_views(groups@),
                ctx == self.ctx(total as int),
                total == errors@.len(),
                crate::error::group_sizes(g) == total,
                groups_spec(errors@, g),
                shown == crate::error::group_sizes(g.take(gi as int)),
                result == groups_text(ctx, g, 0),
                result == r@ + groups_text(ctx, g.skip(gi as int), shown as int),
            decreases groups@.len() - gi,
        {
            let ghost before = r@;
            proof {
                lemma_group_sizes_take(g, gi as int);
                assert(g[gi as int] == (groups@[gi as int].0@, crate::error::ref_views(
                    groups@[gi as int].1@,
                )));
                assert(g.skip(gi as int)[0] == g[gi as int]);
                assert(g.skip(gi as int).drop_first() =~= g.skip(gi + 1));
            }
            r.append("  ");
            r.append(self.colors.info);
            r.append(groups[gi].0.as_str());
            r.append(":");
            r.append(self.colors.reset);
            r.append("\n");
            let ghost after_header = r@;
            let mut part = String::new();
            let (n, stopped) = self.print_members(&groups[gi].1, shown, total, &mut part);
            r.append(part.as_str());
            if stopped {
                proof {
                    assert(result == r@);
                    assert forall|g2: Seq<(Seq<char>, Seq<ConfigErrorV>)>|
                        groups_spec(errors@, g2) implies r@ == groups_text(
                            self.ctx(errors@.len() as int),
                            g2,
                            0,
                        ) by {
                        crate::error::lemma_groups_unique(errors@, g, g2);
                    }
                }
                return r;
            }
            r.append("\n");
            shown = n;
            gi = gi + 1;
        }
        proof {
            assert(g.skip(gi as int) =~= Seq::<(Seq<char>, Seq<ConfigErrorV>)>::empty());
            assert(result == r@);
            assert forall|g2: Seq<(Seq<char>, Seq<ConfigErrorV>)>|
                groups_spec(errors@, g2) implies r@ == groups_text(
                    self.ctx(errors@.len() as int),
                    g2,
                    0,
                ) by {
                crate::error::lemma_groups_unique(errors@, g, g2);
            }
        }
        r
    }
}

pub open spec fn has_suggestion(e: ConfigErrorV) -> bool {
    error_suggestion(e) is Some
}

pub open spec fn suggestion_of(e: ConfigErrorV) -> Seq<char> {
    error_suggestion(e)->0
}

impl<'a> ErrorPrinter<'a> {
    /// The hints footer: the first three suggestions.
    pub fn print_suggestions(&self, errors: &ConfigErrors) -> (r: String)
        ensures
            r@ == suggestions_text(self.colors@, suggestions_of(errors@)),
    {
        let items = errors.as_slice();
        let ghost es = errors@;
        let ghost p = |e: ConfigErrorV| error_suggestion(e) is Some;
        let ghost f = |e: ConfigErrorV| error_suggestion(e)->0;
        let mut found: Vec<String> = Vec::new();
        let mut i: usize = 0;
        assert(es.take(0) =~= Seq::<ConfigErrorV>::empty());
        assert(es.take(0).filter(p) =~= Seq::<ConfigErrorV>::empty()) by {
            es.take(0).lemma_filter_len(p);
        }
        assert(first_n(es.take(0).filter(p).map_values(f), 3) =~= Seq::<Seq<char>>::empty());
        assert(crate::text::views(found@) =~= Seq::<Seq<char>>::empty());
        while i < items.len()
            invariant
                i <= items@.len(),
                error_views(items@) == es,
                p == (|e: ConfigErrorV| error_suggestion(e) is Some),
                f == (|e: ConfigErrorV| error_suggestion(e)->0),
                crate::text::views(found@) == first_n(es.take(i as int).filter(p).map_values(f), 3),
                found@.len() <= 3,
            decreases items@.len() - i,
        {
            let ghost pre = es.take(i as int);
            let ghost before = crate::text::views(found@);
            proof {
                assert(es.take(i + 1) =~= pre.push(es[i as int]));
                pre.lemma_filter_push(es[i as int], p);
                assert(es[i as int] == items@[i as int]@);
            }
            let ghost list = pre.filter(p).map_values(f);
            assert(before.len() == found@.len());
            match items[i].suggestion() {
                Some(s) => {
                    proof {
                        assert(p(es[i as int]));
                        assert(f(es[i as int]) == s@);
                        assert(pre.filter(p).push(es[i as int]).map_values(f) =~= list.push(s@));
                    }
                    if found.len() < 3 {
                        found.push(s);
                        assert(crate::text::views(found@) =~= before.push(s@));
                        assert(first_n(list.push(s@), 3) =~= first_n(list, 3).push(s@));
                    } else {
                        assert(first_n(list.push(s@), 3) =~= first_n(list, 3));
                    }
                },
                None => {
                    assert(!p(es[i as int]));
                },
            }
            i = i + 1;
        }
        assert(es.take(items@.len() as int) =~= es);
        let ghost sugg = crate::text::views(found@);
        let mut r = String::new();
        if found.len() > 0 {
            r.append(self.colors.hint);
            r.append("Hints:");
            r.append(self.colors.reset);
            r.append("\n");
            let ghost head = r@;
            let mut j: usize = 0;
            assert(sugg.take(0) =~= Seq::<Seq<char>>::empty());
            while j < found.len()
                invariant
                    j <= found@.len(),
                    sugg == crate::text::views(found@),
                    r@ == head + hint_lines(sugg.take(j as int)),
                decreases found@.len() - j,
            {
                assert(sugg.take(j + 1).drop_last() =~= sugg.take(j as int));
                r.append("  • ");
                r.append(found[j].as_str());
                r.append("\n");
                j = j + 1;
            }
            assert(sugg.take(found@.len() as int) =~= sugg);
            r.append("\n");
        }
        r
    }

    /// The whole report: header, body (grouped or flat) and hints.
    pub fn print(&self, errors: &ConfigErrors) -> (r: String)
        ensures
            forall|g: Seq<(Seq<char>, Seq<ConfigErrorV>)>|
                groups_spec(errors@, g) ==> r@ == report_text(
                    *self.options,
                    self.colors@,
                    errors@,
                    g,
                ),
    {
        let mut r = string_from("\n");
        r.append(self.colors.error);
        r.append("Configuration errors (");
        r.append(usize_to_string(errors.len()).as_str());
        r.append("):");
        r.append(self.colors.reset);
        r.append("\n\n");
        if self.options.group_by_source {
            r.append(self.print_grouped(errors).as_str());
        } else {
            r.append(self.print_flat(errors).as_str());
        }
        if self.options.show_suggestions {
            r.append(self.print_suggestions(errors).as_str());
        }
        r
    }
}

/// Whether a report written to a string is colored: only when asked for
/// explicitly.
pub open spec fn format_uses_color(c: ColorOption) -> bool {
    c == ColorOption::Always
}

impl ConfigErrors {
    /// The pretty report as a string (colors only with `ColorOption::Always`).
    pub fn format(&self, options: &PrettyPrintOptions) -> (r: String)
        ensures
            forall|g: Seq<(Seq<char>, Seq<ConfigErrorV>)>|
                groups_spec(self@, g) ==> r@ == report_text(
                    *options,
                    colors_spec(format_uses_color(options.color)),
                    self@,
                    g,
                ),
    {
        let use_color = match options.color {
            ColorOption::Always => true,
            ColorOption::Never => false,
            ColorOption::Auto => false,
        };
        let printer = ErrorPrinter::new(options, use_color);
        printer.print(self)
    }
}

/// Whether output is colored: always, never, or when it goes to a terminal.
pub fn should_use_color(color: ColorOption, is_terminal: bool) -> (r: bool)
    ensures
        r == match color {
            ColorOption::Always => true,
            ColorOption::Never => false,
            ColorOption::Auto => is_terminal,
        },
{
    match color {
        ColorOption::Always => true,
        ColorOption::Never => false,
        ColorOption::Auto => is_terminal,
    }
}

} // verus!
