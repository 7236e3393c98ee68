//! Document types of the parser crates, declared so that the library's
//! conversion functions can take them.
use vstd::prelude::*;

use serde_json::Value as JsonValue;
use serde_yaml::Value as YamlValue;
use toml_edit::Item as TomlItemType;
use toml_edit::Value as TomlValueType;

verus! {

/// The parsed JSON value type of `serde_json`.
#[verifier::external_type_specification]
#[verifier::external_body]
pub struct ExJsonValue(JsonValue);

/// The parsed YAML value type of `serde_yaml`.
#[verifier::external_type_specification]
#[verifier::external_body]
pub struct ExYamlValue(YamlValue);

/// The parsed YAML document type, by the name the conversion uses.
pub type YamlDoc = YamlValue;

/// A TOML item of `toml_edit`.
#[verifier::external_type_specification]
#[verifier::external_body]
pub struct ExTomlItem(TomlItemType);

/// A TOML value of `toml_edit`.
#[verifier::external_type_specification]
#[verifier::external_body]
pub struct ExTomlValue(TomlValueType);

/// The TOML item type, by the name the conversion uses.
pub type TomlItemDoc = TomlItemType;

/// The TOML value type, by the name the conversion uses.
pub type TomlValueDoc = TomlValueType;

} // verus!
