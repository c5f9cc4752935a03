//! Normalization of `exports`-like fields: a JSON value becomes a filename, a
//! subpath map with keys rewritten under the package name, or a conditional
//! map.

use vstd::prelude::*;
use crate::json::JsonValue;
use crate::package_json::{key_index_from, ExportsLikeField, FilenameOrConditional};
use crate::text::{chars_of, is_prefix};

verus! {

/// The shape of a normalized value, as plain sequences.
pub enum ExportTree {
    File(Seq<char>),
    Cond(Seq<(Seq<char>, ExportTree)>),
}

/// The shape of a normalized field.
pub enum FieldTree {
    File(Seq<char>),
    Subpaths(Seq<(Seq<char>, ExportTree)>),
    Conditional(Seq<(Seq<char>, ExportTree)>),
}

/// The shape of a normalized value.
pub open spec fn tree_of(v: FilenameOrConditional) -> ExportTree
    decreases v,
{
    match v {
        FilenameOrConditional::Filename(f) => ExportTree::File(f@),
        FilenameOrConditional::Conditional(m) => ExportTree::Cond(entries_tree(m@)),
    }
}

/// The shape of normalized entries.
pub open spec fn entries_tree(es: Seq<(String, FilenameOrConditional)>) -> Seq<(Seq<char>, ExportTree)>
    decreases es,
{
    if es.len() == 0 {
        Seq::empty()
    } else {
        entries_tree(es.subrange(0, es.len() - 1)).push((es[es.len() - 1].0@, tree_of(es[es.len() - 1].1)))
    }
}

/// The shape of a normalized field.
pub open spec fn field_tree(f: ExportsLikeField) -> FieldTree {
    match f {
        ExportsLikeField::Filename(s) => FieldTree::File(s@),
        ExportsLikeField::Subpaths(m) => FieldTree::Subpaths(entries_tree(m@)),
        ExportsLikeField::Conditional(m) => FieldTree::Conditional(entries_tree(m@)),
    }
}

/// A key under `parent`: a leading `.` is replaced by the parent name.
pub open spec fn key_under(key: Seq<char>, parent: Seq<char>) -> Seq<char> {
    if key.len() > 0 && key[0] == '.' {
        parent + key.subrange(1, key.len() as int)
    } else {
        key
    }
}

/// The first entry from index `i` on with key `k`, or -1.
pub open spec fn tree_key_from(es: Seq<(Seq<char>, ExportTree)>, k: Seq<char>, i: int) -> int
    decreases es.len() - i,
{
    if i < 0 || i >= es.len() {
        -1
    } else if es[i].0 == k {
        i
    } else {
        tree_key_from(es, k, i + 1)
    }
}

/// Set key `k` to `v`: in place where the key is present, else at the end.
pub open spec fn tree_insert(es: Seq<(Seq<char>, ExportTree)>, k: Seq<char>, v: ExportTree) -> Seq<(Seq<char>, ExportTree)> {
    let i = tree_key_from(es, k, 0);
    if 0 <= i < es.len() {
        es.update(i, (k, v))
    } else {
        es.push((k, v))
    }
}

/// Some key of the object starts with `.`.
pub open spec fn has_dotted_key(o: Seq<(String, JsonValue)>) -> bool {
    exists|i: int| 0 <= i < o.len() && (#[trigger] o[i]).0@.len() > 0 && o[i].0@[0] == '.'
}

/// Conditions read from the members of `obj` into `acc`: a string becomes a
/// filename, an object nested conditions; anything else fails the whole.
pub open spec fn conditions_fold(acc: Seq<(Seq<char>, ExportTree)>, obj: Seq<(String, JsonValue)>, parent: Seq<char>) -> Option<Seq<(Seq<char>, ExportTree)>>
    decreases obj,
{
    if obj.len() == 0 {
        Some(acc)
    } else {
        match conditions_fold(acc, obj.subrange(0, obj.len() - 1), parent) {
            None => None,
            Some(a) => {
                let k = key_under(obj[obj.len() - 1].0@, parent);
                match obj[obj.len() - 1].1 {
                    JsonValue::String(s) => Some(tree_insert(a, k, ExportTree::File(s@))),
                    JsonValue::Object(o) => match conditions_fold(Seq::empty(), o@, parent) {
                        Some(m) => Some(tree_insert(a, k, ExportTree::Cond(m))),
                        None => None,
                    },
                    _ => None,
                }
            },
        }
    }
}

/// Subpaths read from the members of `obj` into `acc`: keys go under
/// `parent`; a string becomes a filename; an object with a dotted key extends
/// the same map under the new key; another object becomes conditions; other
/// values are skipped.
pub open spec fn names_fold(acc: Seq<(Seq<char>, ExportTree)>, obj: Seq<(String, JsonValue)>, parent: Seq<char>) -> Option<Seq<(Seq<char>, ExportTree)>>
    decreases obj,
{
    if obj.len() == 0 {
        Some(acc)
    } else {
        match names_fold(acc, obj.subrange(0, obj.len() - 1), parent) {
            None => None,
            Some(a) => {
                let k = key_under(obj[obj.len() - 1].0@, parent);
                match obj[obj.len() - 1].1 {
                    JsonValue::String(s) => Some(tree_insert(a, k, ExportTree::File(s@))),
                    JsonValue::Object(o) => if has_dotted_key(o@) {
                        names_fold(a, o@, k)
                    } else {
                        match conditions_fold(Seq::empty(), o@, k) {
                            Some(m) => Some(tree_insert(a, k, ExportTree::Cond(m))),
                            None => None,
                        }
                    },
                    _ => Some(a),
                }
            },
        }
    }
}

/// The normalized shape of an `exports`-like field for package `name`.
pub open spec fn field_spec(name: Seq<char>, v: JsonValue) -> Option<FieldTree> {
    match v {
        JsonValue::String(s) => Some(FieldTree::File(s@)),
        JsonValue::Object(o) => if has_dotted_key(o@) {
            match names_fold(Seq::empty(), o@, name) {
                Some(m) => Some(FieldTree::Subpaths(m)),
                None => None,
            }
        } else {
            match conditions_fold(Seq::empty(), o@, name) {
                Some(m) => Some(FieldTree::Conditional(m)),
                None => None,
            }
        },
        _ => None,
    }
}


pub proof fn lemma_entries_tree(es: Seq<(String, FilenameOrConditional)>)
    ensures
        entries_tree(es).len() == es.len(),
        forall|i: int| 0 <= i < es.len() ==> #[trigger] entries_tree(es)[i] == (es[i].0@, tree_of(es[i].1)),
    decreases es.len(),
{
    if es.len() > 0 {
        lemma_entries_tree(es.subrange(0, es.len() - 1));
    }
}

proof fn lemma_tree_key(es: Seq<(String, FilenameOrConditional)>, k: Seq<char>, i: int)
    requires
        0 <= i,
    ensures
        tree_key_from(entries_tree(es), k, i) == key_index_from(es, k, i),
    decreases es.len() - i,
{
    lemma_entries_tree(es);
    if i < es.len() {
        lemma_tree_key(es, k, i + 1);
    }
}

/// A key under `parent`.
pub fn parse_export_key(key: &str, parent_name: &str) -> (r: String)
    ensures
        r@ == key_under(key@, parent_name@),
{
    let kc = chars_of(key);
    if kc.len() > 0 && kc[0] == '.' {
        let mut r = parent_name.to_owned();
        r.append(key.substring_char(1, kc.len()));
        r
    } else {
        key.to_owned()
    }
}

/// Set `key` to `value` in the entries: in place where the key is present,
/// else at the end.
pub fn insert_entry(map: &mut Vec<(String, FilenameOrConditional)>, key: String, value: FilenameOrConditional)
    ensures
        entries_tree(final(map)@) == tree_insert(entries_tree(old(map)@), key@, tree_of(value)),
{
    proof {
        lemma_entries_tree(old(map)@);
        lemma_tree_key(old(map)@, key@, 0);
        crate::package_json::lemma_key_index_from(old(map)@, key@, 0);
    }
    let ghost es = map@;
    let ghost entry = (key@, tree_of(value));
    let r = crate::package_json::get_entry_index(map, key.as_str());
    match r {
        Some(j) => {
            assert(key_index_from(es, key@, 0) == j as int);
            assert(tree_key_from(entries_tree(es), key@, 0) == j as int);
            map.set(j, (key, value));
            proof {
                lemma_entries_tree(map@);
                assert(map@ == es.update(j as int, (key, value)));
                assert(j == tree_key_from(entries_tree(es), key@, 0));
                assert(entries_tree(map@) =~= entries_tree(es).update(j as int, entry));
                assert(tree_insert(entries_tree(es), key@, tree_of(value)) == entries_tree(es).update(j as int, entry));
            }
        },
        None => {
            map.push((key, value));
            proof {
                assert(map@.subrange(0, map@.len() - 1) =~= es);
            }
        },
    }
}

/// Some key of the object starts with `.`.
pub fn any_dotted_key(o: &Vec<(String, JsonValue)>) -> (r: bool)
    ensures
        r == has_dotted_key(o@),
{
    let mut i: usize = 0;
    while i < o.len()
        invariant
            i <= o@.len(),
            forall|t: int| 0 <= t < i ==> !((#[trigger] o@[t]).0@.len() > 0 && o@[t].0@[0] == '.'),
        decreases o@.len() - i,
    {
        let kc = chars_of(o[i].0.as_str());
        if kc.len() > 0 && kc[0] == '.' {
            return true;
        }
        i += 1;
    }
    false
}


proof fn lemma_conditions_none(acc: Seq<(Seq<char>, ExportTree)>, obj: Seq<(String, JsonValue)>, parent: Seq<char>, i: int)
    requires
        0 <= i <= obj.len(),
        conditions_fold(acc, obj.subrange(0, i), parent) is None,
    ensures
        conditions_fold(acc, obj, parent) is None,
    decreases obj.len() - i,
{
    if i == obj.len() {
        assert(obj.subrange(0, i) =~= obj);
    } else {
        let next = obj.subrange(0, i + 1);
        assert(next.subrange(0, i) =~= obj.subrange(0, i));
        lemma_conditions_none(acc, obj, parent, i + 1);
    }
}

proof fn lemma_names_none(acc: Seq<(Seq<char>, ExportTree)>, obj: Seq<(String, JsonValue)>, parent: Seq<char>, i: int)
    requires
        0 <= i <= obj.len(),
        names_fold(acc, obj.subrange(0, i), parent) is None,
    ensures
        names_fold(acc, obj, parent) is None,
    decreases obj.len() - i,
{
    if i == obj.len() {
        assert(obj.subrange(0, i) =~= obj);
    } else {
        let next = obj.subrange(0, i + 1);
        assert(next.subrange(0, i) =~= obj.subrange(0, i));
        lemma_names_none(acc, obj, parent, i + 1);
    }
}

/// Read the members of `object` as conditions into `map`; false where a
/// value is neither a string nor an object (the field is then dropped).
pub fn parse_exports_conditions(
    map: &mut Vec<(String, FilenameOrConditional)>,
    object: &Vec<(String, JsonValue)>,
    parent_name: &str,
) -> (r: bool)
    ensures
        match conditions_fold(entries_tree(old(map)@), object@, parent_name@) {
            Some(m) => r && entries_tree(final(map)@) == m,
            None => !r,
        },
    decreases object@,
{
    let ghost acc0 = entries_tree(map@);
    let mut i: usize = 0;
    assert(object@.subrange(0, 0).len() == 0);
    while i < object.len()
        invariant
            i <= object@.len(),
            acc0 == entries_tree(old(map)@),
            conditions_fold(acc0, object@.subrange(0, i as int), parent_name@) == Some(entries_tree(map@)),
        decreases object@.len() - i,
    {
        let ghost sub = object@.subrange(0, i + 1);
        assert(sub.subrange(0, i as int) =~= object@.subrange(0, i as int));
        assert(sub[i as int] == object@[i as int]);
        let key = parse_export_key(object[i].0.as_str(), parent_name);
        match &object[i].1 {
            JsonValue::String(s) => {
                insert_entry(map, key, FilenameOrConditional::Filename(s.clone()));
            },
            JsonValue::Object(o) => {
                let mut inner: Vec<(String, FilenameOrConditional)> = Vec::new();
                assert(entries_tree(inner@) =~= Seq::empty());
                proof {
                    assert(decreases_to!(object@ => object@[i as int]));
                }
                if !parse_exports_conditions(&mut inner, o, parent_name) {
                    proof {
                        lemma_conditions_none(acc0, object@, parent_name@, i + 1);
                    }
                    return false;
                }
                insert_entry(map, key, FilenameOrConditional::Conditional(inner));
            },
            _ => {
                proof {
                    lemma_conditions_none(acc0, object@, parent_name@, i + 1);
                }
                return false;
            },
        }
        i += 1;
    }
    assert(object@.subrange(0, i as int) =~= object@);
    true
}

/// Read the members of `object` as subpaths under `parent_name` into `map`;
/// false where a nested conditions map fails.
pub fn parse_export_names(
    map: &mut Vec<(String, FilenameOrConditional)>,
    object: &Vec<(String, JsonValue)>,
    parent_name: &str,
) -> (r: bool)
    ensures
        match names_fold(entries_tree(old(map)@), object@, parent_name@) {
            Some(m) => r && entries_tree(final(map)@) == m,
            None => !r,
        },
    decreases object@,
{
    let ghost acc0 = entries_tree(map@);
    let mut i: usize = 0;
    assert(object@.subrange(0, 0).len() == 0);
    while i < object.len()
        invariant
            i <= object@.len(),
            acc0 == entries_tree(old(map)@),
            names_fold(acc0, object@.subrange(0, i as int), parent_name@) == Some(entries_tree(map@)),
        decreases object@.len() - i,
    {
        let ghost sub = object@.subrange(0, i + 1);
        assert(sub.subrange(0, i as int) =~= object@.subrange(0, i as int));
        assert(sub[i as int] == object@[i as int]);
        let key = parse_export_key(object[i].0.as_str(), parent_name);
        match &object[i].1 {
            JsonValue::String(s) => {
                insert_entry(map, key, FilenameOrConditional::Filename(s.clone()));
            },
            JsonValue::Object(o) => {
                proof {
                    assert(decreases_to!(object@ => object@[i as int]));
                }
                if any_dotted_key(o) {
                    if !parse_export_names(map, o, key.as_str()) {
                        proof {
                            lemma_names_none(acc0, object@, parent_name@, i + 1);
                        }
                        return false;
                    }
                } else {
                    let mut inner: Vec<(String, FilenameOrConditional)> = Vec::new();
                    assert(entries_tree(inner@) =~= Seq::empty());
                    if !parse_exports_conditions(&mut inner, o, key.as_str()) {
                        proof {
                            lemma_names_none(acc0, object@, parent_name@, i + 1);
                        }
                        return false;
                    }
                    insert_entry(map, key, FilenameOrConditional::Conditional(inner));
                }
            },
            _ => {},
        }
        i += 1;
    }
    assert(object@.subrange(0, i as int) =~= object@);
    true
}

/// Normalize one `exports`-like field of the package `package_name`.
pub fn parse_exports_like_field(package_name: &str, input: Option<&JsonValue>) -> (r: Option<ExportsLikeField>)
    ensures
        match input {
            None => r is None,
            Some(v) => match field_spec(package_name@, *v) {
                None => r is None,
                Some(t) => r is Some && field_tree(r->0) == t,
            },
        },
        match input {
            Some(v) => match (*v, r) {
                (JsonValue::Object(o), Some(ExportsLikeField::Subpaths(m))) => subpath_keys_ok(o@)
                    ==> forall|i: int| 0 <= i < m@.len() ==> under_name(package_name@, (#[trigger] m@[i]).0@),
                _ => true,
            },
            None => true,
        },
{
    match input {
        None => None,
        Some(JsonValue::String(s)) => Some(ExportsLikeField::Filename(s.clone())),
        Some(JsonValue::Object(o)) => {
            let mut map: Vec<(String, FilenameOrConditional)> = Vec::new();
            assert(entries_tree(map@) =~= Seq::empty());
            if any_dotted_key(o) {
                if parse_export_names(&mut map, o, package_name) {
                    proof {
                        lemma_entries_tree(map@);
                        if subpath_keys_ok(o@) {
                            let ghost t = entries_tree(map@);
                            lemma_subpath_keys_under_name(package_name@, o@, t);
                            assert(names_fold(Seq::empty(), o@, package_name@) == Some(t));
                            assert(all_under(package_name@, t));
                            assert forall|i: int| 0 <= i < map@.len() implies under_name(
                                package_name@,
                                (#[trigger] map@[i]).0@,
                            ) by {
                                assert(t[i] == (map@[i].0@, tree_of(map@[i].1)));
                                assert(under_name(package_name@, t[i].0));
                            }
                        }
                    }
                    Some(ExportsLikeField::Subpaths(map))
                } else {
                    None
                }
            } else {
                if parse_exports_conditions(&mut map, o, package_name) {
                    Some(ExportsLikeField::Conditional(map))
                } else {
                    None
                }
            }
        },
        Some(_) => None,
    }
}


/// `k` is the package name `p` or lies under it (`p/...`).
pub open spec fn under_name(p: Seq<char>, k: Seq<char>) -> bool {
    k == p || is_prefix(p + seq!['/'], k)
}

/// A subpath key as Node.js writes them: `.` or `./...`.
pub open spec fn dotted_subpath_key(k: Seq<char>) -> bool {
    k == seq!['.'] || is_prefix(seq!['.', '/'], k)
}

/// Every key at a subpath position of the object is `.` or `./...`,
/// nested subpath objects included.
pub open spec fn subpath_keys_ok(obj: Seq<(String, JsonValue)>) -> bool
    decreases obj,
{
    if obj.len() == 0 {
        true
    } else {
        &&& subpath_keys_ok(obj.subrange(0, obj.len() - 1))
        &&& dotted_subpath_key(obj[obj.len() - 1].0@)
        &&& match obj[obj.len() - 1].1 {
            JsonValue::Object(o) => has_dotted_key(o@) ==> subpath_keys_ok(o@),
            _ => true,
        }
    }
}

/// Every key of the entries is under `p`.
pub open spec fn all_under(p: Seq<char>, es: Seq<(Seq<char>, ExportTree)>) -> bool {
    forall|i: int| 0 <= i < es.len() ==> under_name(p, #[trigger] es[i].0)
}

proof fn lemma_tree_key_from(es: Seq<(Seq<char>, ExportTree)>, k: Seq<char>, i: int)
    requires
        0 <= i,
    ensures
        -1 <= tree_key_from(es, k, i) < es.len(),
    decreases es.len() - i,
{
    if i < es.len() && es[i].0 != k {
        lemma_tree_key_from(es, k, i + 1);
    }
}

proof fn lemma_key_under_name(p: Seq<char>, parent: Seq<char>, key: Seq<char>)
    requires
        under_name(p, parent),
        dotted_subpath_key(key),
    ensures
        under_name(p, key_under(key, parent)),
{
    let k = key_under(key, parent);
    let tail = key.subrange(1, key.len() as int);
    if key == seq!['.'] {
        assert(tail =~= Seq::<char>::empty());
        assert(k =~= parent);
    } else {
        assert(key.subrange(0, 2) == seq!['.', '/']);
        assert(tail[0] == '/');
        let q = p + seq!['/'];
        if parent == p {
            assert(k.subrange(0, q.len() as int) =~= q);
        } else {
            assert(parent.subrange(0, q.len() as int) == q);
            assert(k.subrange(0, q.len() as int) =~= parent.subrange(0, q.len() as int));
        }
    }
}

proof fn lemma_names_fold_under(p: Seq<char>, acc: Seq<(Seq<char>, ExportTree)>, obj: Seq<(String, JsonValue)>, parent: Seq<char>)
    requires
        all_under(p, acc),
        under_name(p, parent),
        subpath_keys_ok(obj),
    ensures
        match names_fold(acc, obj, parent) {
            Some(m) => all_under(p, m),
            None => true,
        },
    decreases obj,
{
    if obj.len() > 0 {
        let pre = obj.subrange(0, obj.len() - 1);
        lemma_names_fold_under(p, acc, pre, parent);
        match names_fold(acc, pre, parent) {
            None => {},
            Some(a) => {
                let key = obj[obj.len() - 1].0@;
                let k = key_under(key, parent);
                lemma_key_under_name(p, parent, key);
                lemma_tree_key_from(a, k, 0);
                match obj[obj.len() - 1].1 {
                    JsonValue::Object(o) => {
                        if has_dotted_key(o@) {
                            assert(decreases_to!(obj => obj[obj.len() - 1]));
                            lemma_names_fold_under(p, a, o@, k);
                        }
                    },
                    _ => {},
                }
            },
        }
    }
}

/// In a normalized subpath map for package `name`, every key is `name` or
/// `name/...`, where the field's subpath keys are written `.` or `./...`.
pub proof fn lemma_subpath_keys_under_name(name: Seq<char>, o: Seq<(String, JsonValue)>, m: Seq<(Seq<char>, ExportTree)>)
    requires
        subpath_keys_ok(o),
        names_fold(Seq::empty(), o, name) == Some(m),
    ensures
        all_under(name, m),
{
    lemma_names_fold_under(name, Seq::empty(), o, name);
}

} // verus!
