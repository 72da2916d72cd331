//! Command-line support: `--param NAME=value` substitution into a YAML tree.
pub mod params;
pub mod yaml;
