# premortem

Configuration loading that reports every problem at once. Values come from
layered sources (TOML, JSON and YAML documents, environment variables,
defaults); later sources win, every value remembers where it came from, and
validation accumulates all errors with their source locations instead of
stopping at the first.

The library under `src/` is written in Verus: public functions state their
results in `ensures` over mathematical models (`Seq`, `Map`, spec functions and
views), and Verus proves the code against those contracts. Where a result
comes from a trait that users implement (`Source`, `ConfigEnv`, `Validate`,
`Validator`), the trait has a spec function relating each call's arguments to
its result (`loads`, `reads`, `var_is`, `validates_to`, `gives`, ...); it
allows any result unless the implementation states more, and the library's
own implementations (`MockEnv`, the built-in validators) state exactly what
they give.

## Layout

- `src/value.rs`, `src/assoc.rs`, `src/text.rs`: the value model, association
  lists and the text helpers the rest builds on.
- `src/error.rs`: errors, error lists, `Validation`, path prefixes and the
  text that errors display.
- `src/env.rs`: the `ConfigEnv` trait and `MockEnv`, an in-memory
  environment.
- `src/source.rs`: the `Source` trait, `ConfigValues`, merging and the
  nesting of flat paths into a document.
- `src/sources/`: the TOML, JSON, YAML, environment and defaults sources. The
  document parsers of `toml_edit`, `serde_json` and `serde_yaml` are called
  through trusted wrappers; what the library does with their result is
  verified.
- `src/config.rs`, `src/trace.rs`: the builder, loading, and value tracing.
- `src/validate.rs`, `src/validate/validators.rs`: the `Validate` and
  `Validator` traits and the built-in validators.
- `src/attrs.rs`, `src/attrs/`: the rules of the `#[validate(...)]`
  attribute language: parsing, checking combinations, and planning the checks
  each field gets.
- `src/pretty.rs`, `src/watch.rs`: the error report and the decisions of hot
  reloading.
- `app/`: what touches the world: the real file system and environment, serde,
  printing, threads and the file watcher.
- `tests/`: the tests, run against the compiled library.

## Laws

Besides the per-function contracts, `src/` states and proves laws that span
several calls, as public proof functions named `law_*`: merging any number of
sources keeps, for each path, the value of the last source that has it, and
is associative with the empty source as identity; combining
error lists is associative; a prefixed path starts with its prefix; the traced
final value of a path is the merged one; a parsed validator keeps its name,
and validator names tell the kinds apart.
