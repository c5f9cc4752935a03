//! Matching a specifier against an `exports`-like subpath map, and choosing
//! among conditions.

use vstd::prelude::*;
use crate::package_json::{
    entries_have_star, get_entry, key_index, lemma_key_index_from,
    value_has_star, FilenameOrConditional,
};
use crate::path::{join, join_path};
use crate::text::{first_index_from, opt_view, chars_of, find_char_from, has_char, lemma_first_index_from, vec_has_char};
use crate::wildcard::{replace_first_star, substitute, wildcard_captures, wildcard_match};

verus! {

/// The views of a list of string slices.
pub open spec fn str_views(v: Seq<&str>) -> Seq<Seq<char>> {
    v.map_values(|c: &str| c@)
}

/// The views of a list of strings.
pub open spec fn string_views(v: Seq<String>) -> Seq<Seq<char>> {
    v.map_values(|c: String| c@)
}

/// `s` with its first `*` replaced by `w`.
pub fn replace_first(s: &str, w: &str) -> (r: String)
    ensures
        r@ == replace_first_star(s@, w@),
{
    let cs = chars_of(s);
    proof {
        lemma_first_index_from(cs@, '*', 0);
    }
    let i = find_char_from(&cs, '*', 0);
    if i >= cs.len() {
        return s.to_owned();
    }
    let mut r = s.substring_char(0, i).to_owned();
    r.append(w);
    r.append(s.substring_char(i + 1, cs.len()));
    r
}

/// The name of the `package.json` field that an [`ExportsResolver`] reads.
#[derive(Debug, Clone, Copy, PartialEq, Eq, Structural)]
pub enum FieldName {
    /// The `browser` field.
    Browser,
    /// The `exports` field.
    Exports,
    /// The `main` field.
    Main,
    /// The `module` field.
    Module,
    /// The `types` field.
    Types,
}

/// What a specifier matched in a subpath map: the value, and the captures of
/// a wildcard key where the value has `*`s to fill.
#[derive(Debug, PartialEq)]
pub enum MatchedExport<'a> {
    /// A filename with nothing to substitute.
    Filename(&'a String),
    /// A filename whose `*`s take the captures.
    FilenameWithPlaceholders(&'a String, Vec<&'a str>),
    /// Conditions with nothing to substitute.
    Conditional(&'a Vec<(String, FilenameOrConditional)>),
    /// Conditions whose filenames' `*`s take the captures.
    ConditionalWithPlaceholders(&'a Vec<(String, FilenameOrConditional)>, Vec<&'a str>),
}

impl<'a> MatchedExport<'a> {
    /// The matched value.
    pub open spec fn target(self) -> FilenameOrConditional {
        match self {
            MatchedExport::Filename(f) => FilenameOrConditional::Filename(*f),
            MatchedExport::FilenameWithPlaceholders(f, _) => FilenameOrConditional::Filename(*f),
            MatchedExport::Conditional(m) => FilenameOrConditional::Conditional(*m),
            MatchedExport::ConditionalWithPlaceholders(m, _) => FilenameOrConditional::Conditional(*m),
        }
    }

    /// The captures to substitute (none for the plain variants).
    pub open spec fn captures(self) -> Seq<Seq<char>> {
        match self {
            MatchedExport::FilenameWithPlaceholders(_, c) => str_views(c@),
            MatchedExport::ConditionalWithPlaceholders(_, c) => str_views(c@),
            _ => Seq::empty(),
        }
    }

    /// Whether the value has `*`s to fill.
    pub open spec fn with_placeholders(self) -> bool {
        match self {
            MatchedExport::FilenameWithPlaceholders(_, _) => true,
            MatchedExport::ConditionalWithPlaceholders(_, _) => true,
            _ => false,
        }
    }
}

/// Where the first `*` of a key stands: the length of its literal prefix.
pub open spec fn star_pos(k: Seq<char>) -> int {
    first_index_from(k, '*', 0)
}

/// The entry at `i` has a wildcard key that matches `s`.
pub open spec fn wildcard_hit(es: Seq<(String, FilenameOrConditional)>, s: Seq<char>, i: int) -> bool {
    has_char(es[i].0@, '*') && wildcard_match(es[i].0@, s) is Some
}

/// Among the entries from index `i` on whose wildcard key matches `s`, the
/// one with the longest literal prefix (the earliest among equals), or -1.
pub open spec fn best_wildcard_from(es: Seq<(String, FilenameOrConditional)>, s: Seq<char>, i: int) -> int
    decreases es.len() - i,
{
    if i < 0 || i >= es.len() {
        -1
    } else {
        let b = best_wildcard_from(es, s, i + 1);
        if wildcard_hit(es, s, i) && (b < 0 || b >= es.len() || star_pos(es[i].0@) >= star_pos(es[b].0@)) {
            i
        } else {
            b
        }
    }
}

pub proof fn lemma_best_wildcard_from(es: Seq<(String, FilenameOrConditional)>, s: Seq<char>, i: int)
    requires
        0 <= i,
    ensures
        -1 <= best_wildcard_from(es, s, i) < es.len(),
        best_wildcard_from(es, s, i) >= 0 ==> wildcard_hit(es, s, best_wildcard_from(es, s, i)),
    decreases es.len() - i,
{
    if i < es.len() {
        lemma_best_wildcard_from(es, s, i + 1);
    }
}

/// What `s` matches in the subpath map `es`: the index of the entry, the
/// captures to substitute, and whether there are any. An exact key wins;
/// otherwise the matching wildcard key with the longest literal prefix (the
/// first in the map's order among equals).
pub open spec fn match_spec(es: Seq<(String, FilenameOrConditional)>, s: Seq<char>) -> Option<(int, Seq<Seq<char>>, bool)> {
    let e = key_index(es, s);
    if e >= 0 {
        Some((e, Seq::empty(), false))
    } else {
        let w = best_wildcard_from(es, s, 0);
        if w < 0 {
            None
        } else if value_has_star(es[w].1) {
            Some((w, wildcard_match(es[w].0@, s)->0, true))
        } else {
            Some((w, Seq::empty(), false))
        }
    }
}

/// The target chosen by the ordered condition names from index `i` on, in
/// the conditions `es`, with the captures substituted: the first name that is
/// a key decides; a nested map is searched with the same names, and what it
/// gives (possibly nothing) is the result.
pub open spec fn select_in(names: Seq<Seq<char>>, es: Seq<(String, FilenameOrConditional)>, i: int, caps: Seq<Seq<char>>) -> Option<Seq<char>>
    decreases es, names.len() - i,
{
    if i < 0 || i >= names.len() {
        None
    } else {
        let j = key_index(es, names[i]);
        if j < 0 || j >= es.len() {
            select_in(names, es, i + 1, caps)
        } else {
            match es[j].1 {
                FilenameOrConditional::Filename(f) => Some(substitute(f@, caps)),
                FilenameOrConditional::Conditional(m) => {
                    proof {
                        assert(decreases_to!(es => es[j]));
                        assert(decreases_to!(es[j] => es[j].1));
                        assert(decreases_to!(es[j].1 => m));
                        assert(decreases_to!(m => m@));
                    }
                    select_in(names, m@, 0, caps)
                }
            }
        }
    }
}

/// The target that the ordered condition names choose for a matched value,
/// with the captures substituted.
pub open spec fn export_target(names: Seq<Seq<char>>, v: FilenameOrConditional, caps: Seq<Seq<char>>) -> Option<Seq<char>> {
    match v {
        FilenameOrConditional::Filename(f) => Some(substitute(f@, caps)),
        FilenameOrConditional::Conditional(m) => select_in(names, m@, 0, caps),
    }
}

/// A target path joined onto the package root.
pub open spec fn rooted(root: Seq<char>, t: Option<Seq<char>>) -> Option<Seq<char>> {
    match t {
        Some(p) => Some(join(root, p)),
        None => None,
    }
}

/// Resolver for the `exports`-like fields of `package.json`, reading one
/// field with an ordered list of condition names.
pub struct ExportsResolver {
    pub field_name: FieldName,
    pub condition_names: Vec<String>,
    pub implicit_file_resolver: Option<crate::utils::ImplicitFileResolver>,
}

impl ExportsResolver {
    /// The condition names' views.
    pub open spec fn names(&self) -> Seq<Seq<char>> {
        string_views(self.condition_names@)
    }

    /// A resolver for `field_name` that tries `condition_names` in order.
    pub fn new(
        field_name: FieldName,
        condition_names: Vec<String>,
        implicit_file_resolver: Option<crate::utils::ImplicitFileResolver>,
    ) -> (r: Self)
        ensures
            r.field_name == field_name,
            r.condition_names@ == condition_names@,
            r.implicit_file_resolver == implicit_file_resolver,
    {
        ExportsResolver { field_name, condition_names, implicit_file_resolver }
    }

    /// Substitute the captures into `s` left to right, each replacing the first
    /// `*` still present.
    pub fn replace_placeholders(s: &str, captures: &Vec<&str>) -> (r: String)
        ensures
            r@ == substitute(s@, str_views(captures@)),
    {
        let mut r = s.to_owned();
        let mut i: usize = 0;
        let ghost views = str_views(captures@);
        assert(views.subrange(0, 0).len() == 0);
        while i < captures.len()
            invariant
                i <= captures@.len(),
                views == str_views(captures@),
                r@ == substitute(s@, views.subrange(0, i as int)),
            decreases captures@.len() - i,
        {
            r = replace_first(r.as_str(), captures[i]);
            let ghost next = views.subrange(0, i + 1);
            assert(next.subrange(0, i as int) =~= views.subrange(0, i as int));
            assert(next[i as int] == captures@[i as int]@);
            i += 1;
        }
        assert(views.subrange(0, i as int) =~= views);
        r
    }

    /// Match `import_specifier` against the subpath map: an exact key first,
    /// then the first key with a `*` (in the map's order) that matches it.
    pub fn match_export<'m>(map: &'m Vec<(String, FilenameOrConditional)>, import_specifier: &'m str) -> (r: Option<MatchedExport<'m>>)
        ensures
            match match_spec(map@, import_specifier@) {
                None => r is None,
                Some(t) => r is Some && r->0.target() == map@[t.0].1 && r->0.captures() == t.1
                    && r->0.with_placeholders() == t.2,
            },
    {
        proof {
            lemma_key_index_from(map@, import_specifier@, 0);
        }
        match get_entry(map, import_specifier) {
            Some(FilenameOrConditional::Filename(f)) => {
                return Some(MatchedExport::Filename(f));
            },
            Some(FilenameOrConditional::Conditional(m)) => {
                return Some(MatchedExport::Conditional(m));
            },
            None => {},
        }
        let ghost sv = import_specifier@;
        let mut best: Option<usize> = None;
        let mut best_pos: usize = 0;
        let mut i: usize = map.len();
        while i > 0
            invariant
                i <= map@.len(),
                key_index(map@, sv) < 0,
                sv == import_specifier@,
                match best {
                    None => best_wildcard_from(map@, sv, i as int) == -1,
                    Some(b) => best_wildcard_from(map@, sv, i as int) == b as int && b < map@.len()
                        && best_pos as int == star_pos(map@[b as int].0@),
                },
            decreases i,
        {
            i -= 1;
            proof {
                lemma_best_wildcard_from(map@, sv, i + 1);
            }
            let key = map[i].0.as_str();
            let kc = chars_of(key);
            if vec_has_char(&kc, '*') && wildcard_captures(key, import_specifier).is_some() {
                proof {
                    lemma_first_index_from(kc@, '*', 0);
                }
                let pos = find_char_from(&kc, '*', 0);
                match best {
                    None => {
                        best = Some(i);
                        best_pos = pos;
                    },
                    Some(_) => {
                        if pos >= best_pos {
                            best = Some(i);
                            best_pos = pos;
                        }
                    },
                }
            }
        }
        let b = match best {
            None => {
                return None;
            },
            Some(b) => b,
        };
        proof {
            lemma_best_wildcard_from(map@, sv, 0);
        }
        let key = map[b].0.as_str();
        let caps = match wildcard_captures(key, import_specifier) {
            Some(c) => c,
            None => {
                return None;
            },
        };
        proof {
            assert(str_views(caps@) =~= wildcard_match(key@, import_specifier@)->0);
        }
        Some(
            match &map[b].1 {
                FilenameOrConditional::Filename(f) => {
                    let fc = chars_of(f.as_str());
                    if vec_has_char(&fc, '*') {
                        MatchedExport::FilenameWithPlaceholders(f, caps)
                    } else {
                        MatchedExport::Filename(f)
                    }
                },
                FilenameOrConditional::Conditional(m) => {
                    if Self::any_placeholders_in_map_values(m) {
                        MatchedExport::ConditionalWithPlaceholders(m, caps)
                    } else {
                        MatchedExport::Conditional(m)
                    }
                },
            },
        )
    }

    /// Whether any filename in the entries' values holds a `*`.
    pub fn any_placeholders_in_map_values(map: &Vec<(String, FilenameOrConditional)>) -> (r: bool)
        ensures
            r == entries_have_star(map@),
        decreases map@,
    {
        let mut i: usize = 0;
        let mut found = false;
        while i < map.len()
            invariant
                i <= map@.len(),
                found == entries_have_star(map@.subrange(0, i as int)),
            decreases map@.len() - i,
        {
            let here = match &map[i].1 {
                FilenameOrConditional::Filename(f) => {
                    let cs = chars_of(f.as_str());
                    vec_has_char(&cs, '*')
                },
                FilenameOrConditional::Conditional(m) => {
                    proof {
                        assert(decreases_to!(map@ => map@[i as int]));
                    }
                    Self::any_placeholders_in_map_values(m)
                },
            };
            assert(here == value_has_star(map@[i as int].1));
            let ghost next = map@.subrange(0, i + 1);
            assert(next.subrange(0, i as int) =~= map@.subrange(0, i as int));
            assert(next[i as int] == map@[i as int]);
            assert(entries_have_star(next) == (value_has_star(map@[i as int].1) || entries_have_star(
                map@.subrange(0, i as int),
            )));
            found = found || here;
            i += 1;
        }
        assert(map@.subrange(0, map@.len() as int) =~= map@);
        found
    }

    /// The path that the condition names choose in `map`, under `package_root`.
    pub fn resolve_condition_name(
        &self,
        map: &Vec<(String, FilenameOrConditional)>,
        package_root: &str,
        placeholders: &Vec<&str>,
    ) -> (r: Option<String>)
        ensures
            opt_view(r) == rooted(package_root@, select_in(self.names(), map@, 0, str_views(placeholders@))),
        decreases map@,
    {
        let ghost names = self.names();
        let ghost caps = str_views(placeholders@);
        let mut i: usize = 0;
        while i < self.condition_names.len()
            invariant
                i <= names.len(),
                names == self.names(),
                names.len() == self.condition_names@.len(),
                caps == str_views(placeholders@),
                select_in(names, map@, 0, caps) == select_in(names, map@, i as int, caps),
            decreases names.len() - i,
        {
            let name = self.condition_names[i].as_str();
            assert(names[i as int] == name@);
            proof {
                lemma_key_index_from(map@, name@, 0);
            }
            match get_entry(map, name) {
                None => {},
                Some(FilenameOrConditional::Filename(f)) => {
                    let t = Self::replace_placeholders(f.as_str(), placeholders);
                    return Some(join_path(package_root, t.as_str()));
                },
                Some(FilenameOrConditional::Conditional(m)) => {
                    proof {
                        let j = key_index(map@, name@);
                        assert(decreases_to!(map@ => map@[j]));
                    }
                    return self.resolve_condition_name(m, package_root, placeholders);
                },
            }
            i += 1;
        }
        None
    }

    /// The path of a matched export under `package_root`.
    pub fn resolve_export(&self, entry: MatchedExport<'_>, package_root: &str) -> (r: Option<String>)
        ensures
            opt_view(r) == rooted(package_root@, export_target(self.names(), entry.target(), entry.captures())),
    {
        match entry {
            MatchedExport::Filename(f) => {
                assert(substitute(f@, Seq::empty()) == f@);
                Some(join_path(package_root, f.as_str()))
            },
            MatchedExport::FilenameWithPlaceholders(f, caps) => {
                let t = Self::replace_placeholders(f.as_str(), &caps);
                Some(join_path(package_root, t.as_str()))
            },
            MatchedExport::Conditional(m) => {
                let none: Vec<&str> = Vec::new();
                assert(str_views(none@) =~= Seq::<Seq<char>>::empty());
                self.resolve_condition_name(m, package_root, &none)
            },
            MatchedExport::ConditionalWithPlaceholders(m, caps) => {
                self.resolve_condition_name(m, package_root, &caps)
            },
        }
    }
}

} // verus!
