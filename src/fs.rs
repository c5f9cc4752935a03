//! The resolver's model of the disk: which paths are regular files and
//! directories, and the `package.json` found in each package directory.

use std::sync::Arc;
use vstd::prelude::*;
use crate::json::JsonValue;
use crate::package_json::PeerDependencyMeta;
use crate::path::{normalize, normalize_path};

verus! {

/// The fields of `package.json` that the resolver consumes.
#[derive(Debug, PartialEq)]
pub struct RawPackageJson {
    pub name: Option<String>,
    pub exports: Option<JsonValue>,
    pub files: Option<Vec<String>>,
    pub main: Option<JsonValue>,
    pub browser: Option<JsonValue>,
    pub module: Option<JsonValue>,
    pub types: Option<JsonValue>,
    /// `peerDependencies`: package name to version range.
    pub peer_dependencies: Option<Vec<(String, String)>>,
    /// `peerDependenciesMeta`: package name to its metadata.
    pub peer_dependencies_meta: Option<Vec<(String, PeerDependencyMeta)>>,
}

/// A snapshot of the disk. Paths are listed in normal form (absolute,
/// without `.`, `..` or empty segments); a query is put in normal form and
/// compared with them.
/// A manifest is the `package.json` of a directory: its fields, or the
/// message of the failure to read or parse it.
pub struct FileSystem {
    pub files: Vec<String>,
    pub dirs: Vec<String>,
    pub manifests: Vec<(String, Result<Arc<RawPackageJson>, String>)>,
}

/// `p`'s normal form is one of `paths`.
pub open spec fn listed(paths: Seq<String>, p: Seq<char>) -> bool {
    exists|i: int| 0 <= i < paths.len() && (#[trigger] paths[i])@ == normalize(p)
}

/// The first manifest from index `i` on for directory `d`, or -1.
pub open spec fn manifest_index_from(ms: Seq<(String, Result<Arc<RawPackageJson>, String>)>, d: Seq<char>, i: int) -> int
    decreases ms.len() - i,
{
    if i < 0 || i >= ms.len() {
        -1
    } else if ms[i].0@ == normalize(d) {
        i
    } else {
        manifest_index_from(ms, d, i + 1)
    }
}

proof fn lemma_manifest_index_from(ms: Seq<(String, Result<Arc<RawPackageJson>, String>)>, d: Seq<char>, i: int)
    requires
        0 <= i,
    ensures
        -1 <= manifest_index_from(ms, d, i) < ms.len(),
    decreases ms.len() - i,
{
    if i < ms.len() && ms[i].0@ != normalize(d) {
        lemma_manifest_index_from(ms, d, i + 1);
    }
}

fn listed_exec(paths: &Vec<String>, p: &str) -> (r: bool)
    ensures
        r == listed(paths@, p@),
{
    let n = normalize_path(p);
    let mut i: usize = 0;
    while i < paths.len()
        invariant
            i <= paths@.len(),
            n@ == normalize(p@),
            forall|t: int| 0 <= t < i ==> (#[trigger] paths@[t])@ != normalize(p@),
        decreases paths@.len() - i,
    {
        if paths[i] == n {
            return true;
        }
        i += 1;
    }
    false
}

impl FileSystem {
    /// `p` is a regular file.
    pub open spec fn file(&self, p: Seq<char>) -> bool {
        listed(self.files@, p)
    }

    /// `p` is a directory.
    pub open spec fn dir(&self, p: Seq<char>) -> bool {
        listed(self.dirs@, p)
    }

    /// The manifest of directory `d`, if there is one.
    pub open spec fn manifest(&self, d: Seq<char>) -> Option<Result<Arc<RawPackageJson>, String>> {
        let i = manifest_index_from(self.manifests@, d, 0);
        if 0 <= i < self.manifests@.len() {
            Some(self.manifests@[i].1)
        } else {
            None
        }
    }

    /// Whether `p` is a regular file.
    pub fn is_file(&self, p: &str) -> (r: bool)
        ensures
            r == self.file(p@),
    {
        listed_exec(&self.files, p)
    }

    /// Whether `p` is a directory.
    pub fn is_dir(&self, p: &str) -> (r: bool)
        ensures
            r == self.dir(p@),
    {
        listed_exec(&self.dirs, p)
    }

    /// The manifest of directory `d`.
    pub fn get_manifest(&self, d: &str) -> (r: Option<&Result<Arc<RawPackageJson>, String>>)
        ensures
            match self.manifest(d@) {
                Some(m) => r == Some(&m),
                None => r is None,
            },
    {
        proof {
            lemma_manifest_index_from(self.manifests@, d@, 0);
        }
        let n = normalize_path(d);
        let mut i: usize = 0;
        while i < self.manifests.len()
            invariant
                i <= self.manifests@.len(),
                n@ == normalize(d@),
                manifest_index_from(self.manifests@, d@, 0) == manifest_index_from(self.manifests@, d@, i as int),
            decreases self.manifests@.len() - i,
        {
            if self.manifests[i].0 == n {
                return Some(&self.manifests[i].1);
            }
            i += 1;
        }
        None
    }
}

} // verus!
