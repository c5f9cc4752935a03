//! The aggregate report, and its reduction from per-package results.

use vstd::prelude::*;
use vstd::seq_lib::*;
use crate::analysis::{bucket_of, classify, Analysis, AnalysisError, Bucket};
use crate::errors::message_of;
use crate::order::{codes, codes_of, sort_by_key, sorted_by_key, Keyed};

verus! {

/// A faux-ESM package with CommonJS among its transitive dependencies.
#[derive(Debug, PartialEq)]
pub struct WithCommonJSDependencies {
    pub package_name: String,
    pub transitive_commonjs_dependencies: Vec<String>,
}

/// A faux-ESM package with extensionless relative imports.
#[derive(Debug, PartialEq)]
pub struct WithMissingJsFileExtensions {
    pub package_name: String,
    pub transitive_deps_with_missing_js_file_extensions: Vec<String>,
}

/// The two kinds of faux-ESM package.
#[derive(Debug, PartialEq)]
pub struct FauxESM {
    pub with_commonjs_dependencies: Vec<WithCommonJSDependencies>,
    pub with_missing_js_file_extensions: Vec<WithMissingJsFileExtensions>,
}

/// A package whose analysis stopped at a specifier that did not resolve.
#[derive(Debug, PartialEq)]
pub struct ResolveError {
    pub package_name: String,
    pub from: String,
    pub import_specifier: String,
    pub original_error_message: String,
}

/// A package whose analysis stopped at a file that did not parse.
#[derive(Debug, PartialEq)]
pub struct ParseError {
    pub package_name: String,
    pub path: String,
    pub original_error_message: String,
}

/// The aggregate report over all top-level dependencies.
#[derive(Debug, PartialEq)]
pub struct Report {
    pub total: usize,
    pub esm: Vec<String>,
    pub cjs: Vec<String>,
    pub faux_esm: FauxESM,
    pub resolve_errors: Vec<ResolveError>,
    pub parse_errors: Vec<ParseError>,
}

impl Keyed for String {
    open spec fn sort_key(&self) -> Seq<u32> {
        codes(self@, false)
    }

    fn key_codes(&self) -> (r: Vec<u32>) {
        codes_of(self.as_str(), false)
    }
}

impl Keyed for WithCommonJSDependencies {
    open spec fn sort_key(&self) -> Seq<u32> {
        codes(self.package_name@, true)
    }

    fn key_codes(&self) -> (r: Vec<u32>) {
        codes_of(self.package_name.as_str(), true)
    }
}

impl Keyed for WithMissingJsFileExtensions {
    open spec fn sort_key(&self) -> Seq<u32> {
        codes(self.package_name@, true)
    }

    fn key_codes(&self) -> (r: Vec<u32>) {
        codes_of(self.package_name.as_str(), true)
    }
}

impl Keyed for ParseError {
    open spec fn sort_key(&self) -> Seq<u32> {
        codes(self.package_name@, true)
    }

    fn key_codes(&self) -> (r: Vec<u32>) {
        codes_of(self.package_name.as_str(), true)
    }
}

/// The successful analyses of `s` that belong in bucket `b`, in order.
pub open spec fn entries_of(s: Seq<Result<Analysis, AnalysisError>>, b: Bucket) -> Seq<Analysis>
    decreases s.len(),
{
    if s.len() == 0 {
        Seq::empty()
    } else {
        let prev = entries_of(s.drop_last(), b);
        match s.last() {
            Ok(a) => if bucket_of(a) == b {
                prev.push(a)
            } else {
                prev
            },
            Err(_) => prev,
        }
    }
}

/// The entry of the faux-ESM list with CommonJS dependencies for `a`.
pub open spec fn with_cjs_entry(a: Analysis) -> WithCommonJSDependencies {
    WithCommonJSDependencies {
        package_name: a.package_name,
        transitive_commonjs_dependencies: a.transitive_commonjs_dependencies,
    }
}

/// The entry of the faux-ESM list with missing extensions for `a`.
pub open spec fn with_ext_entry(a: Analysis) -> WithMissingJsFileExtensions {
    WithMissingJsFileExtensions {
        package_name: a.package_name,
        transitive_deps_with_missing_js_file_extensions: a.esm_missing_js_file_extensions,
    }
}

/// A resolve-error entry as (package, from, specifier, message).
pub open spec fn resolve_view(e: ResolveError) -> (Seq<char>, Seq<char>, Seq<char>, Seq<char>) {
    (e.package_name@, e.from@, e.import_specifier@, e.original_error_message@)
}

/// The resolve errors of `s`, in order, as views.
pub open spec fn resolve_errors_of(s: Seq<Result<Analysis, AnalysisError>>) -> Seq<(Seq<char>, Seq<char>, Seq<char>, Seq<char>)>
    decreases s.len(),
{
    if s.len() == 0 {
        Seq::empty()
    } else {
        let prev = resolve_errors_of(s.drop_last());
        match s.last() {
            Err(AnalysisError::ResolveError { package_name, import_specifier, from, source }) => prev.push(
                (package_name@, from@, import_specifier@, message_of(source)),
            ),
            _ => prev,
        }
    }
}

/// The parse errors of `s`, in order.
pub open spec fn parse_errors_of(s: Seq<Result<Analysis, AnalysisError>>) -> Seq<ParseError>
    decreases s.len(),
{
    if s.len() == 0 {
        Seq::empty()
    } else {
        let prev = parse_errors_of(s.drop_last());
        match s.last() {
            Err(AnalysisError::ParseError { package_name, path, original_error_message }) => prev.push(
                ParseError { package_name, path, original_error_message },
            ),
            _ => prev,
        }
    }
}

/// What a report holds for the results `s`: their count; each list holds
/// exactly the entries of its bucket, the error lists those of their kind;
/// `esm` and `cjs` are sorted by character codes, the faux-ESM and
/// parse-error lists by package name with ASCII case folded; resolve errors
/// keep the input order.
pub open spec fn is_report_of(s: Seq<Result<Analysis, AnalysisError>>, r: Report) -> bool {
    &&& r.total == s.len()
    &&& sorted_by_key(r.esm@)
    &&& sorted_by_key(r.cjs@)
    &&& sorted_by_key(r.faux_esm.with_commonjs_dependencies@)
    &&& sorted_by_key(r.faux_esm.with_missing_js_file_extensions@)
    &&& sorted_by_key(r.parse_errors@)
    &&& r.esm@.to_multiset() == entries_of(s, Bucket::Esm).map_values(|a: Analysis| a.package_name).to_multiset()
    &&& r.cjs@.to_multiset() == entries_of(s, Bucket::CommonJs).map_values(|a: Analysis| a.package_name).to_multiset()
    &&& r.faux_esm.with_commonjs_dependencies@.to_multiset() == entries_of(
        s,
        Bucket::FauxWithCommonJsDependencies,
    ).map_values(|a: Analysis| with_cjs_entry(a)).to_multiset()
    &&& r.faux_esm.with_missing_js_file_extensions@.to_multiset() == entries_of(
        s,
        Bucket::FauxWithMissingJsFileExtensions,
    ).map_values(|a: Analysis| with_ext_entry(a)).to_multiset()
    &&& r.resolve_errors@.map_values(|e: ResolveError| resolve_view(e)) == resolve_errors_of(s)
    &&& r.parse_errors@.to_multiset() == parse_errors_of(s).to_multiset()
}

/// Reduce per-package results to the report.
pub fn into_report(analyses: Vec<Result<Analysis, AnalysisError>>) -> (r: Report)
    ensures
        is_report_of(analyses@, r),
{
    let ghost input = analyses@;
    let total = analyses.len();
    let mut rest = analyses;
    let mut esm: Vec<String> = Vec::new();
    let mut cjs: Vec<String> = Vec::new();
    let mut with_cjs: Vec<WithCommonJSDependencies> = Vec::new();
    let mut with_ext: Vec<WithMissingJsFileExtensions> = Vec::new();
    let mut resolve_errors: Vec<ResolveError> = Vec::new();
    let mut parse_errors: Vec<ParseError> = Vec::new();
    let mut k: usize = 0;
    while rest.len() > 0
        invariant
            k + rest@.len() == input.len(),
            total == input.len(),
            rest@ == input.subrange(k as int, input.len() as int),
            esm@ == entries_of(input.subrange(0, k as int), Bucket::Esm).map_values(|a: Analysis| a.package_name),
            cjs@ == entries_of(input.subrange(0, k as int), Bucket::CommonJs).map_values(|a: Analysis| a.package_name),
            with_cjs@ == entries_of(input.subrange(0, k as int), Bucket::FauxWithCommonJsDependencies).map_values(
                |a: Analysis| with_cjs_entry(a),
            ),
            with_ext@ == entries_of(input.subrange(0, k as int), Bucket::FauxWithMissingJsFileExtensions).map_values(
                |a: Analysis| with_ext_entry(a),
            ),
            resolve_errors@.map_values(|e: ResolveError| resolve_view(e)) == resolve_errors_of(input.subrange(0, k as int)),
            parse_errors@ == parse_errors_of(input.subrange(0, k as int)),
        decreases rest@.len(),
    {
        let item = rest.remove(0);
        let ghost pre = input.subrange(0, k as int);
        let ghost next = input.subrange(0, k + 1);
        assert(next.drop_last() =~= pre);
        assert(next.last() == item);
        match item {
            Ok(a) => {
                let b = classify(&a);
                match b {
                    Bucket::FauxWithCommonJsDependencies => {
                        with_cjs.push(
                            WithCommonJSDependencies {
                                package_name: a.package_name,
                                transitive_commonjs_dependencies: a.transitive_commonjs_dependencies,
                            },
                        );
                    },
                    Bucket::FauxWithMissingJsFileExtensions => {
                        with_ext.push(
                            WithMissingJsFileExtensions {
                                package_name: a.package_name,
                                transitive_deps_with_missing_js_file_extensions: a.esm_missing_js_file_extensions,
                            },
                        );
                    },
                    Bucket::Esm => {
                        esm.push(a.package_name);
                    },
                    Bucket::CommonJs => {
                        cjs.push(a.package_name);
                    },
                }
            },
            Err(AnalysisError::ResolveError { package_name, import_specifier, from, source }) => {
                let original_error_message = source.message();
                resolve_errors.push(
                    ResolveError { package_name, from, import_specifier, original_error_message },
                );
            },
            Err(AnalysisError::ParseError { package_name, path, original_error_message }) => {
                parse_errors.push(ParseError { package_name, path, original_error_message });
            },
        }
        k += 1;
        assert(esm@ =~= entries_of(next, Bucket::Esm).map_values(|a: Analysis| a.package_name));
        assert(cjs@ =~= entries_of(next, Bucket::CommonJs).map_values(|a: Analysis| a.package_name));
        assert(with_cjs@ =~= entries_of(next, Bucket::FauxWithCommonJsDependencies).map_values(
            |a: Analysis| with_cjs_entry(a),
        ));
        assert(with_ext@ =~= entries_of(next, Bucket::FauxWithMissingJsFileExtensions).map_values(
            |a: Analysis| with_ext_entry(a),
        ));
        assert(resolve_errors@.map_values(|e: ResolveError| resolve_view(e)) =~= resolve_errors_of(next));
        assert(parse_errors@ =~= parse_errors_of(next));
    }
    assert(input.subrange(0, k as int) =~= input);
    Report {
        total,
        esm: sort_by_key(esm),
        cjs: sort_by_key(cjs),
        faux_esm: FauxESM {
            with_commonjs_dependencies: sort_by_key(with_cjs),
            with_missing_js_file_extensions: sort_by_key(with_ext),
        },
        resolve_errors,
        parse_errors: sort_by_key(parse_errors),
    }
}


/// The package name of one per-package result.
pub open spec fn result_name(x: Result<Analysis, AnalysisError>) -> Seq<char> {
    match x {
        Ok(a) => a.package_name@,
        Err(AnalysisError::ResolveError { package_name, .. }) => package_name@,
        Err(AnalysisError::ParseError { package_name, .. }) => package_name@,
    }
}

/// No two results are for the same package.
pub open spec fn distinct_names(s: Seq<Result<Analysis, AnalysisError>>) -> bool {
    forall|i: int, j: int| 0 <= i < j < s.len() ==> result_name(#[trigger] s[i]) != result_name(#[trigger] s[j])
}

/// The report lists package `n` in bucket `b`.
pub open spec fn in_bucket(r: Report, b: Bucket, n: Seq<char>) -> bool {
    match b {
        Bucket::Esm => exists|k: int| 0 <= k < r.esm@.len() && (#[trigger] r.esm@[k])@ == n,
        Bucket::CommonJs => exists|k: int| 0 <= k < r.cjs@.len() && (#[trigger] r.cjs@[k])@ == n,
        Bucket::FauxWithCommonJsDependencies => exists|k: int|
            0 <= k < r.faux_esm.with_commonjs_dependencies@.len()
                && (#[trigger] r.faux_esm.with_commonjs_dependencies@[k]).package_name@ == n,
        Bucket::FauxWithMissingJsFileExtensions => exists|k: int|
            0 <= k < r.faux_esm.with_missing_js_file_extensions@.len()
                && (#[trigger] r.faux_esm.with_missing_js_file_extensions@[k]).package_name@ == n,
    }
}

proof fn lemma_entries_has(s: Seq<Result<Analysis, AnalysisError>>, i: int)
    requires
        0 <= i < s.len(),
        s[i] is Ok,
    ensures
        entries_of(s, bucket_of(s[i]->Ok_0)).contains(s[i]->Ok_0),
    decreases s.len(),
{
    let b = bucket_of(s[i]->Ok_0);
    if i < s.len() - 1 {
        lemma_entries_has(s.drop_last(), i);
        assert(s.drop_last()[i] == s[i]);
        let prev = entries_of(s.drop_last(), b);
        let k = choose|k: int| 0 <= k < prev.len() && prev[k] == s[i]->Ok_0;
        assert(entries_of(s, b)[k] == s[i]->Ok_0);
    } else {
        let prev = entries_of(s.drop_last(), b);
        assert(entries_of(s, b)[prev.len() as int] == s[i]->Ok_0);
    }
}

proof fn lemma_entries_from(s: Seq<Result<Analysis, AnalysisError>>, b: Bucket, k: int)
    requires
        0 <= k < entries_of(s, b).len(),
    ensures
        exists|j: int| 0 <= j < s.len() && #[trigger] s[j] == Ok::<Analysis, AnalysisError>(entries_of(s, b)[k]) && bucket_of(entries_of(s, b)[k]) == b,
    decreases s.len(),
{
    let prev = entries_of(s.drop_last(), b);
    if k < prev.len() {
        lemma_entries_from(s.drop_last(), b, k);
        let j = choose|j: int| 0 <= j < s.drop_last().len() && #[trigger] s.drop_last()[j] == Ok::<Analysis, AnalysisError>(prev[k]) && bucket_of(prev[k]) == b;
        assert(s[j] == s.drop_last()[j]);
    } else {
        assert(s[s.len() - 1] == Ok::<Analysis, AnalysisError>(entries_of(s, b)[k]));
    }
}

proof fn lemma_list_names<T>(
    list: Seq<T>,
    mapped: Seq<T>,
    s: Seq<Result<Analysis, AnalysisError>>,
    b: Bucket,
    nm: spec_fn(T) -> Seq<char>,
    n: Seq<char>,
)
    requires
        list.to_multiset() == mapped.to_multiset(),
        mapped.len() == entries_of(s, b).len(),
        forall|k: int| 0 <= k < mapped.len() ==> nm(#[trigger] mapped[k]) == entries_of(s, b)[k].package_name@,
    ensures
        (exists|k: int| 0 <= k < list.len() && nm(#[trigger] list[k]) == n) <==> (exists|j: int|
            0 <= j < s.len() && (#[trigger] s[j]) is Ok && bucket_of(s[j]->Ok_0) == b && s[j]->Ok_0.package_name@ == n),
{
    broadcast use group_to_multiset_ensures;

    if exists|k: int| 0 <= k < list.len() && nm(#[trigger] list[k]) == n {
        let k = choose|k: int| 0 <= k < list.len() && nm(#[trigger] list[k]) == n;
        assert(list.contains(list[k]));
        assert(mapped.to_multiset().count(list[k]) > 0);
        assert(mapped.contains(list[k]));
        let m = choose|m: int| 0 <= m < mapped.len() && mapped[m] == list[k];
        lemma_entries_from(s, b, m);
        let j = choose|j: int| 0 <= j < s.len() && #[trigger] s[j] == Ok::<Analysis, AnalysisError>(entries_of(s, b)[m]) && bucket_of(entries_of(s, b)[m]) == b;
        assert(s[j] is Ok && bucket_of(s[j]->Ok_0) == b && s[j]->Ok_0.package_name@ == n);
    }
    if exists|j: int| 0 <= j < s.len() && (#[trigger] s[j]) is Ok && bucket_of(s[j]->Ok_0) == b && s[j]->Ok_0.package_name@ == n {
        let j = choose|j: int| 0 <= j < s.len() && (#[trigger] s[j]) is Ok && bucket_of(s[j]->Ok_0) == b && s[j]->Ok_0.package_name@ == n;
        lemma_entries_has(s, j);
        let e = entries_of(s, b);
        let m = choose|m: int| 0 <= m < e.len() && e[m] == s[j]->Ok_0;
        assert(mapped.contains(mapped[m]));
        assert(list.to_multiset().count(mapped[m]) > 0);
        assert(list.contains(mapped[m]));
        let k = choose|k: int| 0 <= k < list.len() && list[k] == mapped[m];
        assert(nm(list[k]) == n);
    }
}

/// Every successful analysis is listed in exactly one bucket, the one that
/// its classification names, when no two results share a package name.
pub proof fn lemma_each_analysis_in_one_bucket(s: Seq<Result<Analysis, AnalysisError>>, r: Report, i: int)
    requires
        is_report_of(s, r),
        distinct_names(s),
        0 <= i < s.len(),
        s[i] is Ok,
    ensures
        forall|b: Bucket| #[trigger] in_bucket(r, b, s[i]->Ok_0.package_name@) <==> b == bucket_of(s[i]->Ok_0),
{
    let a = s[i]->Ok_0;
    let n = a.package_name@;
    assert forall|b: Bucket| #[trigger] in_bucket(r, b, n) <==> b == bucket_of(a) by {
        let e = entries_of(s, b);
        match b {
            Bucket::Esm => {
                lemma_list_names(r.esm@, e.map_values(|a: Analysis| a.package_name), s, b, |x: String| x@, n);
            },
            Bucket::CommonJs => {
                lemma_list_names(r.cjs@, e.map_values(|a: Analysis| a.package_name), s, b, |x: String| x@, n);
            },
            Bucket::FauxWithCommonJsDependencies => {
                lemma_list_names(
                    r.faux_esm.with_commonjs_dependencies@,
                    e.map_values(|a: Analysis| with_cjs_entry(a)),
                    s,
                    b,
                    |x: WithCommonJSDependencies| x.package_name@,
                    n,
                );
            },
            Bucket::FauxWithMissingJsFileExtensions => {
                lemma_list_names(
                    r.faux_esm.with_missing_js_file_extensions@,
                    e.map_values(|a: Analysis| with_ext_entry(a)),
                    s,
                    b,
                    |x: WithMissingJsFileExtensions| x.package_name@,
                    n,
                );
            },
        }
        if b == bucket_of(a) {
            assert(s[i] is Ok && bucket_of(s[i]->Ok_0) == b && s[i]->Ok_0.package_name@ == n);
        }
        if exists|j: int| 0 <= j < s.len() && (#[trigger] s[j]) is Ok && bucket_of(s[j]->Ok_0) == b && s[j]->Ok_0.package_name@ == n {
            let j = choose|j: int| 0 <= j < s.len() && (#[trigger] s[j]) is Ok && bucket_of(s[j]->Ok_0) == b && s[j]->Ok_0.package_name@ == n;
            if j != i {
                if j < i {
                    assert(result_name(s[j]) != result_name(s[i]));
                } else {
                    assert(result_name(s[i]) != result_name(s[j]));
                }
            }
        }
    }
}

} // verus!
