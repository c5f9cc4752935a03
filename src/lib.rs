//! Static ESM/CommonJS auditing of an installed JavaScript dependency tree:
//! an import-specifier resolver over a model of the disk, the `package.json`
//! normalizer it rests on, the per-package walker's decisions, and the report
//! aggregator.

pub mod text;
pub mod utils;
pub mod path;
pub mod package_json;
pub mod wildcard;
pub mod exports_resolver;
pub mod errors;
pub mod order;
pub mod analysis;
pub mod report;
pub mod json;
pub mod normalize;
pub mod fs;
pub mod parser;
pub mod tree_match;
pub mod probe;
pub mod steps;
pub mod chain;
pub mod presets;
pub mod walker;
pub mod entrypoints;
pub mod bindings;
pub mod project;
