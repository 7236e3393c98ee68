//! Value origin tracing: which source provided each value, and which values
//! were overridden by later sources.
use vstd::prelude::*;

use crate::assoc::{
    assoc_find, assoc_get, assoc_insert, keyed, lemma_get_index, lemma_sorted_insert,
    sorted_insert, sorted_keys,
};
use crate::config::Config;
use crate::source::{merge_maps, views_of, ConfigValues};
use crate::text::seq_lt;
use crate::value::ConfigValueV;
use crate::error::{location_text, SourceLocation, SourceLocationV};
use crate::text::{concat3, string_from};
use crate::value::{Value, ValueV};

verus! {

/// A value together with its source.
#[derive(Debug)]
pub struct TracedValue {
    /// The value
    pub value: Value,
    /// Where the value came from
    pub source: SourceLocation,
    /// Whether this is the value that was used (the last one)
    pub is_final: bool,
}

pub ghost struct TracedValueV {
    pub value: ValueV,
    pub source: SourceLocationV,
    pub is_final: bool,
}

impl View for TracedValue {
    type V = TracedValueV;

    open spec fn view(&self) -> TracedValueV {
        TracedValueV { value: self.value@, source: self.source@, is_final: self.is_final }
    }
}

impl Clone for TracedValue {
    fn clone(&self) -> (r: Self)
        ensures
            r@ == self@,
    {
        TracedValue {
            value: self.value.clone(),
            source: self.source.clone(),
            is_final: self.is_final,
        }
    }
}

impl TracedValue {
    pub fn new(value: Value, source: SourceLocation, is_final: bool) -> (r: Self)
        ensures
            r@ == (TracedValueV { value: value@, source: source@, is_final }),
    {
        TracedValue { value, source, is_final }
    }
}

pub open spec fn traced_views(v: Seq<TracedValue>) -> Seq<TracedValueV> {
    v.map_values(|t: TracedValue| t@)
}

/// The history with its last value marked final.
pub open spec fn mark_last_final(h: Seq<TracedValueV>) -> Seq<TracedValueV> {
    h.update(h.len() - 1, TracedValueV { is_final: true, ..h.last() })
}

/// The full history of a configuration value: every value it had, in source
/// order, and the final one.
#[derive(Debug)]
pub struct ValueTrace {
    /// The final value (from the last source)
    pub final_value: TracedValue,
    /// All values in source order
    pub history: Vec<TracedValue>,
}

pub ghost struct ValueTraceV {
    pub final_value: TracedValueV,
    pub history: Seq<TracedValueV>,
}

impl View for ValueTrace {
    type V = ValueTraceV;

    open spec fn view(&self) -> ValueTraceV {
        ValueTraceV { final_value: self.final_value@, history: traced_views(self.history@) }
    }
}

/// The trace that a non-empty history gives.
pub open spec fn trace_of(h: Seq<TracedValueV>) -> ValueTraceV {
    ValueTraceV { final_value: mark_last_final(h).last(), history: mark_last_final(h) }
}

/// The history lines that `Display` writes for a trace, given the debug
/// text of each value: a marker (an arrow for the final value), the source
/// in brackets, then the value.
pub open spec fn history_lines(h: Seq<TracedValueV>, texts: Seq<Seq<char>>) -> Seq<char>
    decreases h.len(),
{
    if h.len() == 0 || texts.len() != h.len() {
        Seq::empty()
    } else {
        history_lines(h.drop_last(), texts.drop_last()) + history_line(h.last(), texts.last())
    }
}

/// One history line: a marker (an arrow for the final value), the source in
/// brackets, then the value's debug text.
pub open spec fn history_line(v: TracedValueV, text: Seq<char>) -> Seq<char> {
    "  "@ + (if v.is_final {
        "\u{2192}"@
    } else {
        " "@
    }) + " ["@ + location_text(v.source) + "] "@ + text + "\n"@
}

fn history_line_exec(v: &TracedValue, text: &str) -> (r: String)
    ensures
        r@ == history_line(v@, text@),
{
    let mut out = string_from("  ");
    if v.is_final {
        out.append("\u{2192}");
    } else {
        out.append(" ");
    }
    out.append(" [");
    out.append(v.source.to_display_string().as_str());
    out.append("] ");
    out.append(text);
    out.append("\n");
    out
}

/// What `Display` writes for a trace, given the debug text of the final
/// value and of each value of the history: the final value and its source,
/// then the history when more than one source set the value.
pub open spec fn trace_text(t: ValueTraceV, final_text: Seq<char>, texts: Seq<Seq<char>>) -> Seq<
    char,
> {
    "Final: "@ + final_text + " (from "@ + location_text(t.final_value.source) + ")\n"@ + if t.history.len()
        > 1 {
        "History:\n"@ + history_lines(t.history, texts)
    } else {
        Seq::empty()
    }
}

impl ValueTrace {
    /// A trace from a history, with its last value marked final; `None` for
    /// an empty history.
    pub fn new(history: Vec<TracedValue>) -> (r: Option<Self>)
        ensures
            history@.len() == 0 <==> r is None,
            r matches Some(t) ==> t@ == trace_of(traced_views(history@)),
    {
        let mut history = history;
        if history.len() == 0 {
            return None;
        }
        let ghost h0 = traced_views(history@);
        let n = history.len();
        let mut last = history.pop().unwrap();
        last.is_final = true;
        let final_value = last.clone();
        history.push(last);
        assert(traced_views(history@) =~= mark_last_final(h0));
        Some(ValueTrace { final_value, history })
    }

    /// The text that `Display` writes for this trace, given the debug text
    /// of the final value and of each value of the history, in order.
    pub fn to_display_string_with(&self, final_text: &str, texts: &Vec<String>) -> (r: String)
        requires
            texts.len() == self.history.len(),
        ensures
            r@ == trace_text(self@, final_text@, crate::text::views(texts@)),
    {
        let mut out = concat3("Final: ", final_text, " (from ");
        out.append(self.final_value.source.to_display_string().as_str());
        out.append(")\n");
        if self.history.len() > 1 {
            out.append("History:\n");
            let ghost start = out@;
            let mut i: usize = 0;
            assert(traced_views(self.history@).take(0) =~= Seq::<TracedValueV>::empty());
            assert(out@ =~= start + history_lines(
                traced_views(self.history@).take(0),
                crate::text::views(texts@).take(0),
            ));
            while i < self.history.len()
                invariant
                    i <= self.history.len(),
                    texts.len() == self.history.len(),
                    out@ == start + history_lines(
                        traced_views(self.history@).take(i as int),
                        crate::text::views(texts@).take(i as int),
                    ),
                decreases self.history.len() - i,
            {
                let line = history_line_exec(&self.history[i], texts[i].as_str());
                out.append(line.as_str());
                proof {
                    let h = traced_views(self.history@).take(i + 1);
                    let ts = crate::text::views(texts@).take(i + 1);
                    assert(h.drop_last() =~= traced_views(self.history@).take(i as int));
                    assert(ts.drop_last() =~= crate::text::views(texts@).take(i as int));
                    assert(h.last() == self.history@[i as int]@);
                    assert(ts.last() == texts@[i as int]@);
                }
                i = i + 1;
            }
            proof {
                assert(traced_views(self.history@).take(i as int) =~= traced_views(self.history@));
                assert(crate::text::views(texts@).take(i as int) =~= crate::text::views(texts@));
            }
        }
        out
    }

    /// Whether more than one source set this value.
    pub fn was_overridden(&self) -> (r: bool)
        ensures
            r == (self@.history.len() > 1),
    {
        self.history.len() > 1
    }

    /// How many sources set this value.
    pub fn source_count(&self) -> (r: usize)
        ensures
            r == self@.history.len(),
    {
        self.history.len()
    }
}

// ---------------------------------------------------------------------------
// Building traces
// ---------------------------------------------------------------------------

pub open spec fn history_views(v: Seq<(String, Vec<TracedValue>)>) -> Seq<(Seq<char>, Seq<TracedValueV>)> {
    v.map_values(|p: (String, Vec<TracedValue>)| (p.0@, traced_views(p.1@)))
}

pub open spec fn history_of(h: Vec<TracedValue>) -> Seq<TracedValueV> {
    traced_views(h@)
}

/// Collects every value of every path while sources are merged.
#[derive(Debug)]
pub struct TraceBuilder {
    values: Vec<(String, Vec<TracedValue>)>,
}

impl View for TraceBuilder {
    type V = Seq<(Seq<char>, Seq<TracedValueV>)>;

    /// The histories, in path order.
    closed spec fn view(&self) -> Seq<(Seq<char>, Seq<TracedValueV>)> {
        history_views(self.values@)
    }
}

proof fn lemma_history_views(v: Seq<(String, Vec<TracedValue>)>)
    ensures
        history_views(v) == crate::assoc::map_vals(keyed(v), |h: Vec<TracedValue>| history_of(h)),
        sorted_keys(keyed(v)) ==> sorted_keys(history_views(v)),
{
    assert(history_views(v) =~= crate::assoc::map_vals(keyed(v), |h: Vec<TracedValue>| history_of(h)));
    if sorted_keys(keyed(v)) {
        assert forall|a: int, b: int| 0 <= a < b < history_views(v).len() implies crate::text::seq_lt(
            #[trigger] history_views(v)[a].0,
            #[trigger] history_views(v)[b].0,
        ) by {
            assert(keyed(v)[a].0 == history_views(v)[a].0);
            assert(keyed(v)[b].0 == history_views(v)[b].0);
        }
    }
}

/// The histories after one more value for a path: appended to its history.
pub open spec fn add_to_histories(
    s: Seq<(Seq<char>, Seq<TracedValueV>)>,
    path: Seq<char>,
    v: TracedValueV,
) -> Seq<(Seq<char>, Seq<TracedValueV>)> {
    sorted_insert(
        s,
        path,
        match assoc_get(s, path) {
            Some(h) => h.push(v),
            None => seq![v],
        },
    )
}

impl TraceBuilder {
    #[verifier::type_invariant]
    spec fn wf(self) -> bool {
        &&& sorted_keys(keyed(self.values@))
        &&& forall|i: int| 0 <= i < self.values@.len() ==> (#[trigger] self.values@[i]).1@.len() > 0
    }

    /// An empty builder.
    pub fn new() -> (r: Self)
        ensures
            r@ == Seq::<(Seq<char>, Seq<TracedValueV>)>::empty(),
    {
        let r = TraceBuilder { values: Vec::new() };
        assert(r@ =~= Seq::<(Seq<char>, Seq<TracedValueV>)>::empty());
        r
    }

    /// Record a value for a path (not final).
    pub fn add_value(&mut self, path: String, value: Value, source: SourceLocation)
        ensures
            final(self)@ == add_to_histories(
                old(self)@,
                path@,
                TracedValueV { value: value@, source: source@, is_final: false },
            ),
    {
        proof {
            use_type_invariant(&*self);
        }
        let tv = TracedValue::new(value, source, false);
        let ghost tvv = tv@;
        let ghost p = path@;
        let mut values: Vec<(String, Vec<TracedValue>)> = Vec::new();
        std::mem::swap(&mut values, &mut self.values);
        let ghost v0 = values@;
        let ghost f = |h: Vec<TracedValue>| history_of(h);
        proof {
            lemma_history_views(v0);
            crate::source::lemma_get_map_vals(keyed(v0), p, f);
            lemma_get_index(keyed(v0), p);
        }
        let mut hist: Vec<TracedValue> = match assoc_find(&values, path.as_str()) {
            Some(i) => {
                let (_k, h) = values.remove(i);
                proof {
                    crate::assoc::lemma_sorted_remove(keyed(v0), i as int);
                    assert(keyed(values@) =~= keyed(v0).remove(i as int));
                }
                h
            },
            None => Vec::new(),
        };
        let ghost v1 = values@;
        let ghost h0 = traced_views(hist@);
        hist.push(tv);
        assert(traced_views(hist@) =~= h0.push(tvv));
        let ghost hv = hist;
        assoc_insert(&mut values, path, hist);
        proof {
            lemma_sorted_insert(keyed(v1), p, hv);
            lemma_history_views(v1);
            lemma_history_views(values@);
            crate::assoc::lemma_map_vals_insert(keyed(v1), p, hv, f);
            assert forall|k: Seq<char>| #[trigger] assoc_get(keyed(v1), k) == assoc_get(
                keyed(v0),
                k,
            ) || k == p by {}
            assert(history_views(values@) == add_to_histories(history_views(v0), p, tvv)) by {
                assert forall|k: Seq<char>| #[trigger]
                    assoc_get(history_views(values@), k) == assoc_get(
                        add_to_histories(history_views(v0), p, tvv),
                        k,
                    ) by {
                    crate::source::lemma_get_map_vals(keyed(values@), k, f);
                    crate::source::lemma_get_map_vals(keyed(v0), k, f);
                    lemma_sorted_insert(history_views(v0), p, match assoc_get(
                        history_views(v0),
                        p,
                    ) {
                        Some(h) => h.push(tvv),
                        None => seq![tvv],
                    });
                }
                lemma_sorted_insert(history_views(v0), p, match assoc_get(history_views(v0), p) {
                    Some(h) => h.push(tvv),
                    None => seq![tvv],
                });
                crate::assoc::lemma_sorted_ext(
                    history_views(values@),
                    add_to_histories(history_views(v0), p, tvv),
                );
            }
            assert forall|i: int| 0 <= i < values@.len() implies (#[trigger] values@[i]).1@.len()
                > 0 by {
                assert(keyed(values@)[i].1 == values@[i].1);
                crate::assoc::lemma_get_index(keyed(values@), keyed(values@)[i].0);
                if keyed(values@)[i].0 != p {
                    crate::assoc::lemma_get_index(keyed(v1), keyed(values@)[i].0);
                    crate::assoc::lemma_get_index(keyed(v0), keyed(values@)[i].0);
                }
            }
        }
        self.values = values;
    }

    /// The traces, one per path in path order, each with its last value final.
    pub fn build(self) -> (r: Vec<(String, ValueTrace)>)
        ensures
            trace_views(r@) == self@.map_values(
                |p: (Seq<char>, Seq<TracedValueV>)| (p.0, trace_of(p.1)),
            ),
    {
        proof {
            use_type_invariant(&self);
        }
        let ghost hv = self@;
        let ghost g = |p: (Seq<char>, Seq<TracedValueV>)| (p.0, trace_of(p.1));
        let mut values = self.values;
        let mut out: Vec<(String, ValueTrace)> = Vec::new();
        let ghost all = values@;
        let ghost mut k: int = 0;
        assert(all.skip(0) =~= all);
        assert(trace_views(out@) =~= history_views(all.take(0)).map_values(g));
        while values.len() > 0
            invariant
                0 <= k <= all.len(),
                values@ == all.skip(k),
                hv == history_views(all),
                g == (|p: (Seq<char>, Seq<TracedValueV>)| (p.0, trace_of(p.1))),
                forall|j: int| 0 <= j < all.len() ==> (#[trigger] all[j]).1@.len() > 0,
                trace_views(out@) == history_views(all.take(k)).map_values(g),
            decreases values@.len(),
        {
            assert(values@[0] == all[k]);
            let (path, hist) = values.remove(0);
            let trace = ValueTrace::new(hist).unwrap();
            let ghost before = out@;
            out.push((path, trace));
            proof {
                assert(all.take(k + 1) =~= all.take(k).push(all[k]));
                assert(history_views(all.take(k + 1)).map_values(g) =~= history_views(
                    all.take(k),
                ).map_values(g).push(g((all[k].0@, traced_views(all[k].1@)))));
                assert(trace_views(out@) =~= trace_views(before).push((path@, trace@)));
                k = k + 1;
                assert(values@ =~= all.skip(k));
            }
        }
        assert(all.take(k) =~= all);
        out
    }
}

pub open spec fn trace_views(v: Seq<(String, ValueTrace)>) -> Seq<(Seq<char>, ValueTraceV)> {
    v.map_values(|p: (String, ValueTrace)| (p.0@, p.1@))
}

/// One line of a trace report: a mark (a check for the final value, a
/// circle for an overridden one), the source in brackets, the value's debug
/// text, and a note on an overridden value.
pub open spec fn report_line(v: TracedValueV, text: Seq<char>) -> Seq<char> {
    "  "@ + (if v.is_final {
        "\u{2713}"@
    } else {
        "\u{25cb}"@
    }) + " ["@ + location_text(v.source) + "] "@ + text + (if v.is_final {
        Seq::empty()
    } else {
        " <- overridden"@
    }) + "\n"@
}

/// The report lines of a history, given each value's debug text.
pub open spec fn report_lines(h: Seq<TracedValueV>, texts: Seq<Seq<char>>) -> Seq<char>
    decreases h.len(),
{
    if h.len() == 0 || texts.len() != h.len() {
        Seq::empty()
    } else {
        report_lines(h.drop_last(), texts.drop_last()) + report_line(h.last(), texts.last())
    }
}

/// The debug texts of a trace: the final value's, and each history value's.
pub open spec fn texts_view(t: (String, Vec<String>)) -> (Seq<char>, Seq<Seq<char>>) {
    (t.0@, crate::text::views(t.1@))
}

/// The report of every traced path, given the debug texts of its values: the
/// path and its final value, then one line per value it had, then a blank
/// line.
pub open spec fn report_text(
    ts: Seq<(Seq<char>, ValueTraceV)>,
    texts: Seq<(Seq<char>, Seq<Seq<char>>)>,
) -> Seq<char>
    decreases ts.len(),
{
    if ts.len() == 0 || texts.len() != ts.len() {
        Seq::empty()
    } else {
        report_text(ts.drop_last(), texts.drop_last()) + ts.last().0 + " = "@ + texts.last().0
            + "\n"@ + report_lines(ts.last().1.history, texts.last().1) + "\n"@
    }
}

fn report_line_exec(v: &TracedValue, text: &str) -> (r: String)
    ensures
        r@ == report_line(v@, text@),
{
    let mut out = string_from("  ");
    if v.is_final {
        out.append("\u{2713}");
    } else {
        out.append("\u{25cb}");
    }
    out.append(" [");
    out.append(v.source.to_display_string().as_str());
    out.append("] ");
    out.append(text);
    if !v.is_final {
        out.append(" <- overridden");
    }
    out.append("\n");
    out
}

fn report_lines_exec(h: &Vec<TracedValue>, texts: &Vec<String>) -> (r: String)
    requires
        texts.len() == h.len(),
    ensures
        r@ == report_lines(traced_views(h@), crate::text::views(texts@)),
{
    let mut out = String::new();
    let mut i: usize = 0;
    assert(out@ =~= report_lines(
        traced_views(h@).take(0),
        crate::text::views(texts@).take(0),
    ));
    while i < h.len()
        invariant
            i <= h.len(),
            texts.len() == h.len(),
            out@ == report_lines(traced_views(h@).take(i as int), crate::text::views(texts@).take(i as int)),
        decreases h.len() - i,
    {
        let line = report_line_exec(&h[i], texts[i].as_str());
        out.append(line.as_str());
        proof {
            let hh = traced_views(h@).take(i + 1);
            let ts = crate::text::views(texts@).take(i + 1);
            assert(hh.drop_last() =~= traced_views(h@).take(i as int));
            assert(ts.drop_last() =~= crate::text::views(texts@).take(i as int));
            assert(hh.last() == h@[i as int]@);
            assert(ts.last() == texts@[i as int]@);
        }
        i = i + 1;
    }
    assert(traced_views(h@).take(i as int) =~= traced_views(h@));
    assert(crate::text::views(texts@).take(i as int) =~= crate::text::views(texts@));
    out
}

/// A configuration together with the trace of every value.
#[derive(Debug)]
pub struct TracedConfig<T> {
    config: Config<T>,
    traces: Vec<(String, ValueTrace)>,
}

pub open spec fn is_overridden(p: (Seq<char>, ValueTraceV)) -> bool {
    p.1.history.len() > 1
}

pub open spec fn key_of(p: (Seq<char>, ValueTraceV)) -> Seq<char> {
    p.0
}

impl<T> TracedConfig<T> {
    #[verifier::type_invariant]
    spec fn wf(self) -> bool {
        sorted_keys(keyed(self.traces@))
    }

    /// The traces, in path order.
    pub closed spec fn traces_view(&self) -> Seq<(Seq<char>, ValueTraceV)> {
        trace_views(self.traces@)
    }

    pub closed spec fn config_view(&self) -> Config<T> {
        self.config
    }

    /// A traced configuration; a path given twice keeps its later trace.
    pub fn new(config: Config<T>, traces: Vec<(String, ValueTrace)>) -> (r: Self)
        ensures
            r.config_view() == config,
            sorted_keys(r.traces_view()),
            forall|k: Seq<char>| #[trigger]
                assoc_get(r.traces_view(), k) == crate::assoc::assoc_get(
                    crate::assoc::insert_all(Seq::empty(), trace_views(traces@)),
                    k,
                ),
    {
        let mut traces = traces;
        let mut sorted: Vec<(String, ValueTrace)> = Vec::new();
        let ghost all = trace_views(traces@);
        let ghost f = |t: ValueTrace| t@;
        let ghost mut k: int = 0;
        assert(trace_views(sorted@) =~= crate::assoc::insert_all(Seq::empty(), all.take(0)));
        assert(traces@ =~= traces@.skip(0));
        let ghost src = traces@;
        while traces.len() > 0
            invariant
                0 <= k <= src.len(),
                traces@ == src.skip(k),
                all == trace_views(src),
                f == (|t: ValueTrace| t@),
                sorted_keys(keyed(sorted@)),
                trace_views(sorted@) == crate::assoc::insert_all(Seq::empty(), all.take(k)),
            decreases traces@.len(),
        {
            assert(traces@[0] == src[k]);
            let (path, trace) = traces.remove(0);
            let ghost s0 = sorted@;
            let ghost pv = path@;
            let ghost tv = trace;
            assoc_insert(&mut sorted, path, trace);
            proof {
                assert(trace_views(s0) =~= crate::assoc::map_vals(keyed(s0), f));
                assert(trace_views(sorted@) =~= crate::assoc::map_vals(keyed(sorted@), f));
                crate::assoc::lemma_map_vals_insert(keyed(s0), pv, tv, f);
                assert(all.take(k + 1).drop_last() =~= all.take(k));
                assert(all.take(k + 1).last() == (pv, tv@));
                k = k + 1;
                assert(traces@ =~= src.skip(k));
            }
        }
        assert(all.take(k) =~= all);
        proof {
            lemma_sorted_trace_views(sorted@);
        }
        TracedConfig { config, traces: sorted }
    }

    /// The configuration value.
    pub fn value(&self) -> (r: &T)
        ensures
            *r == self.config_view().inner(),
    {
        self.config.get()
    }

    /// The configuration.
    pub fn config(&self) -> (r: &Config<T>)
        ensures
            *r == self.config_view(),
    {
        &self.config
    }

    /// The configuration value itself.
    pub fn into_inner(self) -> (r: T)
        ensures
            r == self.config_view().inner(),
    {
        self.config.into_inner()
    }

    /// The configuration.
    pub fn into_config(self) -> (r: Config<T>)
        ensures
            r == self.config_view(),
    {
        self.config
    }

    /// The trace of a path.
    pub fn trace(&self, path: &str) -> (r: Option<&ValueTrace>)
        ensures
            match r {
                Some(t) => assoc_get(self.traces_view(), path@) == Some(t@),
                None => assoc_get(self.traces_view(), path@) is None,
            },
    {
        proof {
            use_type_invariant(self);
            crate::source::lemma_get_map_vals(keyed(self.traces@), path@, |t: ValueTrace| t@);
            assert(self.traces_view() =~= crate::assoc::map_vals(
                keyed(self.traces@),
                |t: ValueTrace| t@,
            ));
        }
        match assoc_find(&self.traces, path) {
            Some(i) => Some(&self.traces[i].1),
            None => None,
        }
    }

    /// Whether the value at a path was set by more than one source.
    pub fn was_overridden(&self, path: &str) -> (r: bool)
        ensures
            r == match assoc_get(self.traces_view(), path@) {
                Some(t) => t.history.len() > 1,
                None => false,
            },
    {
        match self.trace(path) {
            Some(t) => t.history.len() > 1,
            None => false,
        }
    }

    /// All traces, in path order.
    pub fn traces(&self) -> (r: &[(String, ValueTrace)])
        ensures
            trace_views(r@) == self.traces_view(),
    {
        self.traces.as_slice()
    }

    /// The paths whose value was overridden, in order.
    pub fn overridden_paths(&self) -> (r: Vec<String>)
        ensures
            crate::text::views(r@) == self.traces_view().filter(|p: (Seq<char>, ValueTraceV)| is_overridden(p)).map_values(
                |p: (Seq<char>, ValueTraceV)| key_of(p),
            ),
    {
        let ghost tv = self.traces_view();
        let ghost pr = |p: (Seq<char>, ValueTraceV)| is_overridden(p);
        let ghost kf = |p: (Seq<char>, ValueTraceV)| key_of(p);
        let mut r: Vec<String> = Vec::new();
        let mut i: usize = 0;
        assert(tv.take(0).filter(pr) =~= Seq::<(Seq<char>, ValueTraceV)>::empty()) by {
            tv.take(0).lemma_filter_len(pr);
        }
        assert(crate::text::views(r@) =~= tv.take(0).filter(pr).map_values(kf));
        while i < self.traces.len()
            invariant
                i <= self.traces@.len(),
                tv == trace_views(self.traces@),
                pr == (|p: (Seq<char>, ValueTraceV)| is_overridden(p)),
                kf == (|p: (Seq<char>, ValueTraceV)| key_of(p)),
                crate::text::views(r@) == tv.take(i as int).filter(pr).map_values(kf),
            decreases self.traces@.len() - i,
        {
            proof {
                assert(tv.take(i + 1) =~= tv.take(i as int).push(tv[i as int]));
                tv.take(i as int).lemma_filter_push(tv[i as int], pr);
                assert(tv[i as int] == (self.traces@[i as int].0@, self.traces@[i as int].1@));
            }
            if self.traces[i].1.history.len() > 1 {
                let ghost before = r@;
                r.push(self.traces[i].0.clone());
                assert(crate::text::views(r@) =~= crate::text::views(before).push(
                    self.traces@[i as int].0@,
                ));
                assert(tv.take(i as int).filter(pr).push(tv[i as int]).map_values(kf) =~= tv.take(
                    i as int,
                ).filter(pr).map_values(kf).push(kf(tv[i as int])));
            }
            i = i + 1;
        }
        assert(tv.take(self.traces@.len() as int) =~= tv);
        r
    }

    /// All traced paths, in order.
    pub fn paths(&self) -> (r: Vec<String>)
        ensures
            crate::text::views(r@) == self.traces_view().map_values(
                |p: (Seq<char>, ValueTraceV)| key_of(p),
            ),
    {
        let ghost tv = self.traces_view();
        let mut r: Vec<String> = Vec::new();
        let mut i: usize = 0;
        while i < self.traces.len()
            invariant
                i <= self.traces@.len(),
                tv == trace_views(self.traces@),
                r@.len() == i,
                crate::text::views(r@) == tv.take(i as int).map_values(
                    |p: (Seq<char>, ValueTraceV)| key_of(p),
                ),
            decreases self.traces@.len() - i,
        {
            let ghost before = r@;
            r.push(self.traces[i].0.clone());
            assert(tv[i as int].0 == self.traces@[i as int].0@);
            assert(crate::text::views(r@) =~= crate::text::views(before).push(
                self.traces@[i as int].0@,
            ));
            assert(crate::text::views(r@) =~= tv.take(i + 1).map_values(
                |p: (Seq<char>, ValueTraceV)| key_of(p),
            ));
            i = i + 1;
        }
        assert(tv.take(self.traces@.len() as int) =~= tv);
        r
    }

    /// A report of every traced path, given the debug text of each value
    /// (for each trace, in order: the final value's, then each history
    /// value's): the path and its final value, then one line per value it
    /// had, then a blank line.
    pub fn trace_report_with(&self, texts: &Vec<(String, Vec<String>)>) -> (r: String)
        requires
            texts.len() == self.traces_view().len(),
            forall|i: int|
                0 <= i < texts.len() ==> (#[trigger] texts@[i]).1.len()
                    == self.traces_view()[i].1.history.len(),
        ensures
            r@ == report_text(self.traces_view(), texts@.map_values(|t: (String, Vec<String>)| texts_view(t))),
    {
        let ghost tv = self.traces_view();
        let ghost xv = texts@.map_values(|t: (String, Vec<String>)| texts_view(t));
        let mut out = String::new();
        let mut i: usize = 0;
        assert(out@ =~= report_text(tv.take(0), xv.take(0)));
        while i < self.traces.len()
            invariant
                i <= self.traces@.len(),
                tv == trace_views(self.traces@),
                xv == texts@.map_values(|t: (String, Vec<String>)| texts_view(t)),
                texts.len() == tv.len(),
                forall|j: int|
                    0 <= j < texts.len() ==> (#[trigger] texts@[j]).1.len() == tv[j].1.history.len(),
                out@ == report_text(tv.take(i as int), xv.take(i as int)),
            decreases self.traces@.len() - i,
        {
            let path = &self.traces[i].0;
            let trace = &self.traces[i].1;
            out.append(path.as_str());
            out.append(" = ");
            out.append(texts[i].0.as_str());
            out.append("\n");
            assert(texts@[i as int].1.len() == tv[i as int].1.history.len());
            assert(tv[i as int].1.history == traced_views(trace.history@));
            let lines = report_lines_exec(&trace.history, &texts[i].1);
            out.append(lines.as_str());
            out.append("\n");
            proof {
                let ta = tv.take(i + 1);
                let xa = xv.take(i + 1);
                assert(ta.drop_last() =~= tv.take(i as int));
                assert(xa.drop_last() =~= xv.take(i as int));
                assert(ta.last() == tv[i as int]);
                assert(xa.last() == texts_view(texts@[i as int]));
            }
            i = i + 1;
        }
        assert(tv.take(i as int) =~= tv);
        assert(xv.take(i as int) =~= xv);
        out
    }

    /// Number of traced paths.
    pub fn trace_count(&self) -> (r: usize)
        ensures
            r == self.traces_view().len(),
    {
        self.traces.len()
    }
}

proof fn lemma_sorted_trace_views(v: Seq<(String, ValueTrace)>)
    requires
        sorted_keys(keyed(v)),
    ensures
        sorted_keys(trace_views(v)),
{
    assert forall|a: int, b: int| 0 <= a < b < trace_views(v).len() implies crate::text::seq_lt(
        #[trigger] trace_views(v)[a].0,
        #[trigger] trace_views(v)[b].0,
    ) by {
        assert(keyed(v)[a].0 == trace_views(v)[a].0);
        assert(keyed(v)[b].0 == trace_views(v)[b].0);
    }
}

// ---------------------------------------------------------------------------
// Recording loaded sources
// ---------------------------------------------------------------------------

/// A loaded value as a trace records it: not yet final.
pub open spec fn recorded(cv: ConfigValueV) -> TracedValueV {
    TracedValueV { value: cv.value, source: cv.source, is_final: false }
}

/// The histories after every entry of `es` is recorded, in order.
pub open spec fn record_entries(
    h: Seq<(Seq<char>, Seq<TracedValueV>)>,
    es: Seq<(Seq<char>, ConfigValueV)>,
) -> Seq<(Seq<char>, Seq<TracedValueV>)>
    decreases es.len(),
{
    if es.len() == 0 {
        h
    } else {
        add_to_histories(record_entries(h, es.drop_last()), es.last().0, recorded(es.last().1))
    }
}

/// The entries of each source.
pub open spec fn entries_of_all(vs: Seq<ConfigValues>) -> Seq<Seq<(Seq<char>, ConfigValueV)>> {
    vs.map_values(|v: ConfigValues| v.entries())
}

/// The histories after each source's entries are recorded, source by source.
pub open spec fn record_sources(srcs: Seq<Seq<(Seq<char>, ConfigValueV)>>) -> Seq<
    (Seq<char>, Seq<TracedValueV>),
>
    decreases srcs.len(),
{
    if srcs.len() == 0 {
        Seq::empty()
    } else {
        record_entries(record_sources(srcs.drop_last()), srcs.last())
    }
}

/// The history a path had before: its recorded values, or none.
pub open spec fn prior(h: Seq<(Seq<char>, Seq<TracedValueV>)>, k: Seq<char>) -> Seq<TracedValueV> {
    match assoc_get(h, k) {
        Some(x) => x,
        None => Seq::empty(),
    }
}

proof fn lemma_record_entries(h: Seq<(Seq<char>, Seq<TracedValueV>)>, es: Seq<(Seq<char>, ConfigValueV)>)
    requires
        sorted_keys(h),
        sorted_keys(es),
    ensures
        sorted_keys(record_entries(h, es)),
        forall|k: Seq<char>|
            #[trigger] assoc_get(record_entries(h, es), k) == match assoc_get(es, k) {
                Some(cv) => Some(prior(h, k).push(recorded(cv))),
                None => assoc_get(h, k),
            },
    decreases es.len(),
{
    if es.len() > 0 {
        let es0 = es.drop_last();
        let last = es.last();
        assert(sorted_keys(es0)) by {
            assert forall|i: int, j: int| 0 <= i < j < es0.len() implies seq_lt(
                #[trigger] es0[i].0,
                #[trigger] es0[j].0,
            ) by {
                assert(es0[i] == es[i]);
                assert(es0[j] == es[j]);
            }
        }
        lemma_record_entries(h, es0);
        let r0 = record_entries(h, es0);
        let v = recorded(last.1);
        let hv = match assoc_get(r0, last.0) {
            Some(x) => x.push(v),
            None => seq![v],
        };
        lemma_sorted_insert(r0, last.0, hv);
        assert(es0.push(last) =~= es);
        lemma_get_index(es0, last.0);
        assert forall|i: int| 0 <= i < es0.len() implies es0[i].0 != last.0 by {
            assert(es0[i] == es[i]);
            assert(seq_lt(es[i].0, es[es.len() - 1].0));
            crate::text::lemma_lt_irreflexive(last.0);
        }
        assert forall|k: Seq<char>| #[trigger] assoc_get(record_entries(h, es), k) == match assoc_get(
            es,
            k,
        ) {
            Some(cv) => Some(prior(h, k).push(recorded(cv))),
            None => assoc_get(h, k),
        } by {
            crate::source::lemma_assoc_get_push(es0, last, k);
            if k == last.0 {
                assert(assoc_get(es0, k) is None);
            }
        }
    }
}

proof fn lemma_record_sources(srcs: Seq<Seq<(Seq<char>, ConfigValueV)>>)
    requires
        forall|i: int| 0 <= i < srcs.len() ==> sorted_keys(#[trigger] srcs[i]),
    ensures
        sorted_keys(record_sources(srcs)),
    decreases srcs.len(),
{
    if srcs.len() > 0 {
        lemma_record_sources(srcs.drop_last());
        assert(sorted_keys(srcs[srcs.len() - 1]));
        lemma_record_entries(record_sources(srcs.drop_last()), srcs.last());
    }
}

/// When every source's values are recorded in source order, a path has a
/// history exactly when the merge of the sources has a value for it, and
/// the last value recorded for the path is the merged one, from the same
/// source.
pub proof fn law_trace_final_is_merged(srcs: Seq<ConfigValues>, k: Seq<char>)
    requires
        forall|i: int| 0 <= i < srcs.len() ==> sorted_keys(#[trigger] srcs[i].entries()),
    ensures
        assoc_get(record_sources(entries_of_all(srcs)), k) is Some <==> merge_maps(
            views_of(srcs),
        ).dom().contains(k),
        merge_maps(views_of(srcs)).dom().contains(k) ==> {
            let h = assoc_get(record_sources(entries_of_all(srcs)), k)->0;
            &&& h.len() > 0
            &&& h.last().value == merge_maps(views_of(srcs))[k].value
            &&& h.last().source == merge_maps(views_of(srcs))[k].source
        },
    decreases srcs.len(),
{
    if srcs.len() > 0 {
        let s0 = srcs.drop_last();
        assert forall|i: int| 0 <= i < s0.len() implies sorted_keys(#[trigger] s0[i].entries()) by {
            assert(s0[i] == srcs[i]);
        }
        law_trace_final_is_merged(s0, k);
        let es = entries_of_all(srcs);
        assert(es.drop_last() =~= entries_of_all(s0));
        assert(views_of(srcs).drop_last() =~= views_of(s0));
        assert forall|i: int| 0 <= i < es.len() implies sorted_keys(#[trigger] es[i]) by {}
        lemma_record_sources(es.drop_last());
        let last = srcs.last();
        assert(es.last() == last.entries());
        lemma_record_entries(record_sources(es.drop_last()), last.entries());
        assert(views_of(srcs).last() == last@);
        crate::source::lemma_values_view(last);
    }
}

} // verus!
