//! The decisions of hot reloading: which event reports a reload, and what a
//! watcher does with what its file watch hands it. Watching files, holding
//! the current configuration across threads and delivering events are the
//! work of the program around the library.
use vstd::prelude::*;

use crate::error::{error_text, error_views, ConfigErrors, ConfigErrorV};
use crate::text::string_from;

verus! {

/// Events emitted during configuration watching.
#[derive(Debug, Clone)]
pub enum ConfigEvent {
    /// Configuration was successfully reloaded.
    Reloaded { changed_sources: Vec<String> },
    /// Configuration reload failed; the previous configuration stays.
    ReloadFailed { errors: Vec<String> },
    /// A source file changed (before reload attempt).
    SourceChanged { path: String },
    /// Watcher encountered an error.
    WatchError { message: String },
}

/// The mathematical model of a `ConfigEvent`.
pub ghost enum ConfigEventV {
    Reloaded { changed_sources: Seq<Seq<char>> },
    ReloadFailed { errors: Seq<Seq<char>> },
    SourceChanged { path: Seq<char> },
    WatchError { message: Seq<char> },
}

impl View for ConfigEvent {
    type V = ConfigEventV;

    open spec fn view(&self) -> ConfigEventV {
        match *self {
            ConfigEvent::Reloaded { changed_sources } => ConfigEventV::Reloaded {
                changed_sources: crate::text::views(changed_sources@),
            },
            ConfigEvent::ReloadFailed { errors } => ConfigEventV::ReloadFailed {
                errors: crate::text::views(errors@),
            },
            ConfigEvent::SourceChanged { path } => ConfigEventV::SourceChanged { path: path@ },
            ConfigEvent::WatchError { message } => ConfigEventV::WatchError { message: message@ },
        }
    }
}

/// The event that reports a reload's outcome: the changed source on
/// success, each error's text on failure.
pub open spec fn reload_event_spec<T>(
    outcome: Result<T, Seq<ConfigErrorV>>,
    changed_source: Seq<char>,
) -> ConfigEventV {
    match outcome {
        Ok(_) => ConfigEventV::Reloaded { changed_sources: seq![changed_source] },
        Err(es) => ConfigEventV::ReloadFailed {
            errors: Seq::new(es.len(), |i: int| error_text(es[i])),
        },
    }
}

pub open spec fn outcome_view<T>(r: Result<T, ConfigErrors>) -> Result<T, Seq<ConfigErrorV>> {
    match r {
        Ok(t) => Ok(t),
        Err(es) => Err(es@),
    }
}

/// The event that reports a reload: `Reloaded` naming `changed_source`
/// when the new configuration was built, `ReloadFailed` with the text of
/// every error when it was not.
pub fn reload_event<T>(outcome: &Result<T, ConfigErrors>, changed_source: &str) -> (r: ConfigEvent)
    ensures
        r@ == reload_event_spec(outcome_view(*outcome), changed_source@),
{
    match outcome {
        Ok(_) => {
            let mut changed: Vec<String> = Vec::new();
            changed.push(string_from(changed_source));
            assert(crate::text::views(changed@) =~= seq![changed_source@]);
            ConfigEvent::Reloaded { changed_sources: changed }
        },
        Err(errors) => {
            let all = errors.as_slice();
            let mut texts: Vec<String> = Vec::new();
            let mut i: usize = 0;
            while i < all.len()
                invariant
                    i <= all.len(),
                    error_views(all@) == errors@,
                    crate::text::views(texts@) =~= Seq::new(
                        i as nat,
                        |j: int| error_text(errors@[j]),
                    ),
                decreases all.len() - i,
            {
                let ghost before = texts@;
                let t = all[i].to_display_string();
                assert(errors@[i as int] == all@[i as int]@);
                texts.push(t);
                assert(crate::text::views(texts@) =~= crate::text::views(before).push(t@));
                i = i + 1;
            }
            ConfigEvent::ReloadFailed { errors: texts }
        },
    }
}

/// What a watcher's file watch hands it next.
#[derive(Debug)]
pub enum WatchInput {
    /// A watched file changed.
    Changed(String),
    /// Nothing arrived in time.
    Timeout,
    /// The file watch is gone.
    Disconnected,
}

/// What a watcher does next.
#[derive(Debug)]
pub enum WatchStep {
    /// Stop watching.
    Stop,
    /// Wait for the next input.
    Wait,
    /// Report the changed file and reload.
    Reload(String),
}

/// What a watcher does with an input, `elapsed_ms` after its last reload:
/// a change within the debounce time of the last reload is let pass, any
/// other change is reloaded, a lost file watch stops the watcher.
pub fn watch_step(input: WatchInput, elapsed_ms: u64, debounce_ms: u64) -> (r: WatchStep)
    ensures
        match input {
            WatchInput::Changed(path) => if elapsed_ms < debounce_ms {
                r is Wait
            } else {
                r is Reload && r->Reload_0@ == path@
            },
            WatchInput::Timeout => r is Wait,
            WatchInput::Disconnected => r is Stop,
        },
{
    match input {
        WatchInput::Changed(path) => {
            if elapsed_ms < debounce_ms {
                WatchStep::Wait
            } else {
                WatchStep::Reload(path)
            }
        },
        WatchInput::Timeout => WatchStep::Wait,
        WatchInput::Disconnected => WatchStep::Stop,
    }
}

} // verus!
