//! Errors that can occur while resolving import specifiers.

use vstd::prelude::*;

verus! {

/// An error that occurred while resolving an import specifier. Paths are
/// held as strings, and an underlying I/O or JSON failure as its message.
#[derive(Debug, PartialEq)]
pub enum ResolveError {
    /// Failed to canonicalize the resolved path.
    CanonicalizeRelativePathFailed(String, String),
    /// Reached the end of the chain without resolving the specifier.
    FailedToResolve(String, String),
    /// A relative specifier names a file that does not exist.
    FileNotFound(String),
    /// The path resolved from has no parent.
    FromPathHasNoParent,
    /// An unexpected filesystem failure.
    IoError(String, String),
    /// No `node_modules` directory could be found.
    NodeModulesNotFound,
    /// No `package.json` could be found above the directory.
    PackageJsonNotFound(String),
    /// A `package.json` file could not be parsed.
    ParsePackageJsonFailed(String, String),
    /// The specifier refers to an optional peer dependency that is not installed.
    PeerDependencyNotInstalled(String),
}

/// An error with its strings as views.
pub enum ErrView {
    CanonicalizeRelativePathFailed(Seq<char>, Seq<char>),
    FailedToResolve(Seq<char>, Seq<char>),
    FileNotFound(Seq<char>),
    FromPathHasNoParent,
    IoError(Seq<char>, Seq<char>),
    NodeModulesNotFound,
    PackageJsonNotFound(Seq<char>),
    ParsePackageJsonFailed(Seq<char>, Seq<char>),
    PeerDependencyNotInstalled(Seq<char>),
}

/// The view of an error.
pub open spec fn err_view(e: ResolveError) -> ErrView {
    match e {
        ResolveError::CanonicalizeRelativePathFailed(p, m) => ErrView::CanonicalizeRelativePathFailed(p@, m@),
        ResolveError::FailedToResolve(s, p) => ErrView::FailedToResolve(s@, p@),
        ResolveError::FileNotFound(p) => ErrView::FileNotFound(p@),
        ResolveError::FromPathHasNoParent => ErrView::FromPathHasNoParent,
        ResolveError::IoError(p, m) => ErrView::IoError(p@, m@),
        ResolveError::NodeModulesNotFound => ErrView::NodeModulesNotFound,
        ResolveError::PackageJsonNotFound(p) => ErrView::PackageJsonNotFound(p@),
        ResolveError::ParsePackageJsonFailed(p, m) => ErrView::ParsePackageJsonFailed(p@, m@),
        ResolveError::PeerDependencyNotInstalled(n) => ErrView::PeerDependencyNotInstalled(n@),
    }
}

/// The human-readable message of an error.
pub open spec fn message_of(e: ResolveError) -> Seq<char> {
    match e {
        ResolveError::CanonicalizeRelativePathFailed(p, m) => "Failed to canonicalize relative path "@
            + p@ + ": "@ + m@,
        ResolveError::FailedToResolve(s, p) => "Failed to resolve "@ + s@ + " from "@ + p@,
        ResolveError::FileNotFound(p) => "File "@ + p@ + " not found"@,
        ResolveError::FromPathHasNoParent => "From path has no parent"@,
        ResolveError::IoError(p, m) => "Encountered IO error at "@ + p@ + ": "@ + m@,
        ResolveError::NodeModulesNotFound => "Unable to locate node_modules directory"@,
        ResolveError::PackageJsonNotFound(p) => "Unable to locate package.json for "@ + p@,
        ResolveError::ParsePackageJsonFailed(p, m) => "Failed to parse package.json "@ + p@ + ": "@
            + m@,
        ResolveError::PeerDependencyNotInstalled(n) => "The import specifier referred to peer dependency "@
            + n@ + " that was not installed"@,
    }
}

fn cat3(a: &str, b: &str, c: &str) -> (r: String)
    ensures
        r@ == a@ + b@ + c@,
{
    let mut r = a.to_owned();
    r.append(b);
    r.append(c);
    r
}

fn cat4(a: &str, b: &str, c: &str, d: &str) -> (r: String)
    ensures
        r@ == a@ + b@ + c@ + d@,
{
    let mut r = cat3(a, b, c);
    r.append(d);
    r
}

impl ResolveError {
    /// The human-readable message of this error.
    pub fn message(&self) -> (r: String)
        ensures
            r@ == message_of(*self),
    {
        match self {
            ResolveError::CanonicalizeRelativePathFailed(p, m) => cat4(
                "Failed to canonicalize relative path ",
                p.as_str(),
                ": ",
                m.as_str(),
            ),
            ResolveError::FailedToResolve(s, p) => cat4(
                "Failed to resolve ",
                s.as_str(),
                " from ",
                p.as_str(),
            ),
            ResolveError::FileNotFound(p) => cat3("File ", p.as_str(), " not found"),
            ResolveError::FromPathHasNoParent => "From path has no parent".to_owned(),
            ResolveError::IoError(p, m) => cat4(
                "Encountered IO error at ",
                p.as_str(),
                ": ",
                m.as_str(),
            ),
            ResolveError::NodeModulesNotFound => "Unable to locate node_modules directory".to_owned(),
            ResolveError::PackageJsonNotFound(p) => {
                let mut r = "Unable to locate package.json for ".to_owned();
                r.append(p.as_str());
                r
            },
            ResolveError::ParsePackageJsonFailed(p, m) => cat4(
                "Failed to parse package.json ",
                p.as_str(),
                ": ",
                m.as_str(),
            ),
            ResolveError::PeerDependencyNotInstalled(n) => cat3(
                "The import specifier referred to peer dependency ",
                n.as_str(),
                " that was not installed",
            ),
        }
    }
}

} // verus!
