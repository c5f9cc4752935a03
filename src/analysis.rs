//! The per-package analysis that the walker fills and the report reduces.

use vstd::prelude::*;

verus! {

/// What the walk of one top-level dependency found. The two name lists are
/// sets: strictly increasing in the order of their characters' codes.
#[derive(Debug, PartialEq)]
pub struct Analysis {
    pub package_name: String,
    /// Cleared when the package's own files use CommonJS syntax.
    pub is_entry_esm: bool,
    /// Other packages reached from this one whose files use CommonJS syntax.
    pub transitive_commonjs_dependencies: Vec<String>,
    /// Packages reached from this one that import relative paths without a
    /// `.js` or `.mjs` extension.
    pub esm_missing_js_file_extensions: Vec<String>,
}

/// Why the analysis of one top-level dependency stopped.
#[derive(Debug, PartialEq)]
pub enum AnalysisError {
    /// A module could not be resolved.
    ResolveError {
        package_name: String,
        import_specifier: String,
        from: String,
        source: crate::errors::ResolveError,
    },
    /// A file failed to parse.
    ParseError { package_name: String, path: String, original_error_message: String },
}

/// The report bucket that an analysis belongs in.
#[derive(Debug, Clone, Copy, PartialEq, Eq, Structural)]
pub enum Bucket {
    /// ESM entry, with CommonJS reached transitively.
    FauxWithCommonJsDependencies,
    /// ESM entry, with extensionless relative imports.
    FauxWithMissingJsFileExtensions,
    /// True ESM.
    Esm,
    /// CommonJS entry.
    CommonJs,
}

/// The bucket of an analysis: transitive CommonJS takes precedence over
/// missing extensions, and both only apply to an ESM entry.
pub open spec fn bucket_of(a: Analysis) -> Bucket {
    if a.is_entry_esm && a.transitive_commonjs_dependencies@.len() > 0 {
        Bucket::FauxWithCommonJsDependencies
    } else if a.is_entry_esm && a.esm_missing_js_file_extensions@.len() > 0 {
        Bucket::FauxWithMissingJsFileExtensions
    } else if a.is_entry_esm {
        Bucket::Esm
    } else {
        Bucket::CommonJs
    }
}

/// Classify an analysis into its report bucket.
pub fn classify(a: &Analysis) -> (r: Bucket)
    ensures
        r == bucket_of(*a),
{
    if a.is_entry_esm && a.transitive_commonjs_dependencies.len() > 0 {
        Bucket::FauxWithCommonJsDependencies
    } else if a.is_entry_esm && a.esm_missing_js_file_extensions.len() > 0 {
        Bucket::FauxWithMissingJsFileExtensions
    } else if a.is_entry_esm {
        Bucket::Esm
    } else {
        Bucket::CommonJs
    }
}

} // verus!
