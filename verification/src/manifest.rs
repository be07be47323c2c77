//! Manifest rewrites for the scoped upload, over `toml_edit` documents: the
//! workspace manifest's member arrays cut down to the uploaded closure, and a
//! member manifest's dev-dependency tables dropped.

use vstd::prelude::*;
use crate::order::{lemma_str_lt_asym, lemma_str_lt_total, lemma_str_lt_trans, str_less, str_lt};
use crate::path::{spec_strip_prefix, str_eq, strip_prefix, views};
use crate::text::push_str;
use crate::control_plane::{log_lookup, log_map};
use crate::runner_gen::{path_dep_rewrite, spec_path_dep_rewrite};
use toml_edit::{Array, DocumentMut, Item, Value};

verus! {

#[verifier::external_type_specification]
#[verifier::external_body]
pub struct ExDocumentMut(toml_edit::DocumentMut);

/// The dependency tables a manifest rewrite looks at.
pub open spec fn dep_section(s: Seq<char>) -> bool {
    s == "dependencies"@ || s == "build-dependencies"@ || s == "dev-dependencies"@
}

/// A dependency's place: its `target.<cfg>` (none for a top-level table), its
/// table and its name.
pub type DepKey = (Option<Seq<char>>, Seq<char>, Seq<char>);

/// The string `path` of every dependency entry that declares one: an entry of a
/// `dependencies`, `build-dependencies` or `dev-dependencies` table (top level,
/// or under `target.<cfg>`) that is a table or an inline table whose `path`
/// item is a string.
pub uninterp spec fn dep_paths(doc: DocumentMut) -> Map<DepKey, Seq<char>>;

/// Where a document holds a `dev-dependencies` item: `None` for the top-level
/// table, `Some(cfg)` for a table-like `target.<cfg>` (under a table-like `target`).
pub uninterp spec fn dev_dep_places(doc: DocumentMut) -> Set<Option<Seq<char>>>;

/// The top-level keys of a document that hold a table or an inline table.
pub uninterp spec fn top_tables(doc: DocumentMut) -> Set<Seq<char>>;

/// The entries of the table-like top-level `dependencies` item (`None` when
/// there is none), in document order: each key with the string value of its
/// `package` item when the entry is a table or an inline table that has one.
pub uninterp spec fn dependencies_table(doc: DocumentMut) -> Option<Seq<(Seq<char>, Option<Seq<char>>)>>;

/// The keys of the table-like top-level `workspace` item (none when there is
/// no such item).
pub uninterp spec fn workspace_keys(doc: DocumentMut) -> Set<Seq<char>>;

/// The items of the table-like top-level `workspace` item that are arrays of
/// strings, by key: the strings in order.
pub uninterp spec fn workspace_arrays(doc: DocumentMut) -> Map<Seq<char>, Seq<Seq<char>>>;

/// The non-table items of a document (values, and arrays of tables), by
/// their key path through tables and inline tables, each as the text it
/// renders to.
pub uninterp spec fn leaf_values(doc: DocumentMut) -> Map<Seq<Seq<char>>, Seq<char>>;

/// `p` is a prefix of the key path `k`.
pub open spec fn key_prefix(p: Seq<Seq<char>>, k: Seq<Seq<char>>) -> bool {
    p.len() <= k.len() && k.subrange(0, p.len() as int) == p
}

/// `a` and `b` hold the same items at every key path outside `p`.
pub open spec fn agree_outside(a: Map<Seq<Seq<char>>, Seq<char>>, b: Map<Seq<Seq<char>>, Seq<char>>, p: Seq<Seq<char>>) -> bool {
    forall|k: Seq<Seq<char>>| !key_prefix(p, k) ==> (#[trigger] a.contains_key(k) <==> b.contains_key(k)) && (a.contains_key(k) ==> a[k] == b[k])
}

/// `a` and `b` hold the same items at every key path that `touched` leaves out.
pub open spec fn kept_except(a: Map<Seq<Seq<char>>, Seq<char>>, b: Map<Seq<Seq<char>>, Seq<char>>, touched: spec_fn(Seq<Seq<char>>) -> bool) -> bool {
    forall|k: Seq<Seq<char>>| !touched(k) ==> (#[trigger] a.contains_key(k) <==> b.contains_key(k)) && (a.contains_key(k) ==> a[k] == b[k])
}

/// The key path of a dependency's `path` item.
pub open spec fn dep_path_key(k: DepKey) -> Seq<Seq<char>> {
    match k.0 {
        None => seq![k.1, k.2, "path"@],
        Some(c) => seq!["target"@, c, k.1, k.2, "path"@],
    }
}

/// What `toml_edit` parses from a manifest text, as the facts above of the
/// parsed document (`None` when the text does not parse): its dependency
/// paths, its `dev-dependencies` places, its top-level tables, its
/// `[dependencies]` entries, and its `workspace` keys and string arrays.
pub uninterp spec fn parsed_manifest(text: Seq<char>) -> Option<
    (
        Map<DepKey, Seq<char>>,
        Set<Option<Seq<char>>>,
        Set<Seq<char>>,
        Option<Seq<(Seq<char>, Option<Seq<char>>)>>,
        Set<Seq<char>>,
        Map<Seq<char>, Seq<Seq<char>>>,
        Map<Seq<Seq<char>>, Seq<char>>,
    ),
>;

/// The text a document renders to (`toml_edit`'s `Display` of `DocumentMut`),
/// formatting preserved.
pub uninterp spec fn rendered_text(doc: DocumentMut) -> Seq<char>;

/// Whether `toml_edit` parses `text` as a document.
pub open spec fn toml_parses(text: Seq<char>) -> bool {
    parsed_manifest(text) is Some
}

/// The dependency paths of the document parsed from `text`.
pub open spec fn manifest_dep_paths(text: Seq<char>) -> Map<DepKey, Seq<char>> {
    match parsed_manifest(text) {
        Some(f) => f.0,
        None => Map::empty(),
    }
}

/// The `dev-dependencies` places of the document parsed from `text`.
pub open spec fn manifest_dev_dep_places(text: Seq<char>) -> Set<Option<Seq<char>>> {
    match parsed_manifest(text) {
        Some(f) => f.1,
        None => Set::empty(),
    }
}

/// The top-level table keys of the document parsed from `text`.
pub open spec fn manifest_top_tables(text: Seq<char>) -> Set<Seq<char>> {
    match parsed_manifest(text) {
        Some(f) => f.2,
        None => Set::empty(),
    }
}

/// The `[dependencies]` entries of the document parsed from `text` (`None`
/// when it does not parse or has no such table).
pub open spec fn manifest_dependencies(text: Seq<char>) -> Option<Seq<(Seq<char>, Option<Seq<char>>)>> {
    match parsed_manifest(text) {
        Some(f) => f.3,
        None => None,
    }
}

/// Parses `text` with `toml_edit` (`str::parse::<DocumentMut>`); the error is
/// the parser's message. The parsed document holds what the text declares.
#[verifier::external_body]
pub(crate) fn parse_document(text: &str) -> (r: Result<DocumentMut, String>)
    ensures
        r is Ok <==> parsed_manifest(text@) is Some,
        r matches Ok(d) ==> parsed_manifest(text@) == Some(
            (dep_paths(d), dev_dep_places(d), top_tables(d), dependencies_table(d), workspace_keys(d), workspace_arrays(d), leaf_values(d)),
        ),
        r matches Ok(d) ==> forall|k: DepKey| #[trigger] dep_paths(d).contains_key(k) ==> dep_section(k.1),
{
    text.parse::<DocumentMut>().map_err(|e| e.to_string())
}

/// The views of dependency entries.
pub open spec fn entry_views(v: Seq<(String, Option<String>)>) -> Seq<(Seq<char>, Option<Seq<char>>)> {
    v.map_values(|e: (String, Option<String>)| (e.0@, crate::config::opt_owned(e.1)))
}

/// The entries of the top-level `dependencies` table: each key, in document
/// order, with the string `package` of an inline-table or table entry.
#[verifier::external_body]
pub(crate) fn dependencies_of(doc: &DocumentMut) -> (r: Option<Vec<(String, Option<String>)>>)
    ensures
        match r {
            Some(v) => dependencies_table(*doc) == Some(entry_views(v@)),
            None => dependencies_table(*doc) is None,
        },
{
    let deps = doc.get("dependencies").and_then(Item::as_table_like)?;
    Some(deps.iter().map(|(k, item)| (k.to_string(), match item {
        Item::Value(Value::InlineTable(t)) => t.get("package").and_then(Value::as_str).map(str::to_string),
        Item::Table(t) => t.get("package").and_then(Item::as_str).map(str::to_string),
        _ => None,
    })).collect())
}

/// `DocumentMut::to_string`: the document's text, formatting preserved.
#[verifier::external_body]
fn render_document(doc: &DocumentMut) -> (r: String)
    ensures
        r@ == rendered_text(*doc),
{
    doc.to_string()
}

/// The dependency paths with those of one `dev-dependencies` table dropped
/// (`place`: its `target.<cfg>`, none for the top-level table).
pub open spec fn drop_dev_paths(m: Map<DepKey, Seq<char>>, place: Option<Seq<char>>) -> Map<DepKey, Seq<char>> {
    Map::new(|k: DepKey| m.contains_key(k) && !(k.0 == place && k.1 == "dev-dependencies"@), |k: DepKey| m[k])
}

/// Removes the top-level `dev-dependencies` item (`DocumentMut::remove`);
/// whether there was one. Its paths and its key go with it; the rest stays.
#[verifier::external_body]
fn remove_top_dev_deps(doc: &mut DocumentMut) -> (r: bool)
    ensures
        r == dev_dep_places(*old(doc)).contains(None),
        dev_dep_places(*final(doc)) == dev_dep_places(*old(doc)).remove(None),
        dep_paths(*final(doc)) == drop_dev_paths(dep_paths(*old(doc)), None),
        top_tables(*final(doc)) == top_tables(*old(doc)).remove("dev-dependencies"@),
        dependencies_table(*final(doc)) == dependencies_table(*old(doc)),
        agree_outside(leaf_values(*final(doc)), leaf_values(*old(doc)), seq!["dev-dependencies"@]),
{
    doc.remove("dev-dependencies").is_some()
}

/// The keys of the top-level `target` table, in document order (none when
/// there is no such table): among them every cfg holding a dependency path.
#[verifier::external_body]
fn target_keys(doc: &DocumentMut) -> (r: Vec<String>)
    ensures
        forall|k: DepKey| #[trigger] dep_paths(*doc).contains_key(k) && k.0 is Some ==> views(r@).contains(k.0->0),
        forall|p: Option<Seq<char>>| #[trigger] dev_dep_places(*doc).contains(p) && p is Some ==> views(r@).contains(p->0),
{
    match doc.get("target").and_then(Item::as_table_like) {
        Some(t) => t.iter().map(|(k, _)| k.to_string()).collect(),
        None => Vec::new(),
    }
}

/// Removes the `dev-dependencies` item of the table `target.<cfg>`; whether
/// there was one. Its paths go with it; the rest stays.
#[verifier::external_body]
fn remove_target_dev_deps(doc: &mut DocumentMut, cfg: &str) -> (r: bool)
    ensures
        r == dev_dep_places(*old(doc)).contains(Some(cfg@)),
        dev_dep_places(*final(doc)) == dev_dep_places(*old(doc)).remove(Some(cfg@)),
        dep_paths(*final(doc)) == drop_dev_paths(dep_paths(*old(doc)), Some(cfg@)),
        top_tables(*final(doc)) == top_tables(*old(doc)),
        dependencies_table(*final(doc)) == dependencies_table(*old(doc)),
        agree_outside(leaf_values(*final(doc)), leaf_values(*old(doc)), seq!["target"@, cfg@, "dev-dependencies"@]),
{
    match doc.get_mut("target").and_then(Item::as_table_like_mut).and_then(|t| t.get_mut(cfg)).and_then(
        Item::as_table_like_mut,
    ) {
        Some(t) => t.remove("dev-dependencies").is_some(),
        None => false,
    }
}

/// The keys of the top-level table `section` (none when there is no such
/// table): among them every dependency of it holding a path.
#[verifier::external_body]
fn top_dep_keys(doc: &DocumentMut, section: &str) -> (r: Vec<String>)
    ensures
        forall|k: Seq<char>| #[trigger] dep_paths(*doc).contains_key((None, section@, k)) ==> views(r@).contains(k),
{
    match doc.get(section).and_then(Item::as_table_like) {
        Some(t) => t.iter().map(|(k, _)| k.to_string()).collect(),
        None => Vec::new(),
    }
}

/// The keys of the table `target.<cfg>.<section>` (none when there is no
/// such table): among them every dependency of it holding a path.
#[verifier::external_body]
fn target_dep_keys(doc: &DocumentMut, cfg: &str, section: &str) -> (r: Option<Vec<String>>)
    ensures
        forall|k: Seq<char>| #[trigger] dep_paths(*doc).contains_key((Some(cfg@), section@, k)) ==> r is Some && views(r->0@).contains(k),
{
    let table = doc.get("target")?.get(cfg)?.get(section)?.as_table_like()?;
    Some(table.iter().map(|(k, _)| k.to_string()).collect())
}

/// The string `path` of the dependency `key` of the top-level table `section`.
#[verifier::external_body]
fn top_dep_path(doc: &DocumentMut, section: &str, key: &str) -> (r: Option<String>)
    requires
        dep_section(section@),
    ensures
        r is Some <==> dep_paths(*doc).contains_key((None, section@, key@)),
        r matches Some(p) ==> p@ == dep_paths(*doc)[(None, section@, key@)],
{
    let dep = doc.get(section)?.get(key)?;
    dep.get("path").and_then(Item::as_str).map(String::from)
}

/// The string `path` of the dependency `key` of the table `target.<cfg>.<section>`.
#[verifier::external_body]
fn target_dep_path(doc: &DocumentMut, cfg: &str, section: &str, key: &str) -> (r: Option<String>)
    requires
        dep_section(section@),
    ensures
        r is Some <==> dep_paths(*doc).contains_key((Some(cfg@), section@, key@)),
        r matches Some(p) ==> p@ == dep_paths(*doc)[(Some(cfg@), section@, key@)],
{
    let dep = doc.get("target")?.get(cfg)?.get(section)?.get(key)?;
    dep.get("path").and_then(Item::as_str).map(String::from)
}

/// Sets the `path` of the dependency `key` of the top-level table `section`
/// (`InlineTable::insert` or `Table::insert`); no other path changes, and the
/// tables, the `dev-dependencies` places and the `[dependencies]` entries stay.
#[verifier::external_body]
fn set_top_dep_path(doc: &mut DocumentMut, section: &str, key: &str, path: &str)
    requires
        dep_paths(*old(doc)).contains_key((None, section@, key@)),
    ensures
        dep_paths(*final(doc)) == dep_paths(*old(doc)).insert((None, section@, key@), path@),
        dev_dep_places(*final(doc)) == dev_dep_places(*old(doc)),
        top_tables(*final(doc)) == top_tables(*old(doc)),
        dependencies_table(*final(doc)) == dependencies_table(*old(doc)),
        agree_outside(leaf_values(*final(doc)), leaf_values(*old(doc)), dep_path_key((None, section@, key@))),
{
    if let Some(dep) = doc.get_mut(section).and_then(|t| t.get_mut(key)) {
        match dep {
            Item::Value(Value::InlineTable(t)) => {
                t.insert("path", path.into());
            },
            Item::Table(t) => {
                t.insert("path", toml_edit::value(path));
            },
            _ => {},
        }
    }
}

/// Sets the `path` of the dependency `key` of the table `target.<cfg>.<section>`
/// (`InlineTable::insert` or `Table::insert`); no other path changes, and the
/// tables, the `dev-dependencies` places and the `[dependencies]` entries stay.
#[verifier::external_body]
fn set_target_dep_path(doc: &mut DocumentMut, cfg: &str, section: &str, key: &str, path: &str)
    requires
        dep_paths(*old(doc)).contains_key((Some(cfg@), section@, key@)),
    ensures
        dep_paths(*final(doc)) == dep_paths(*old(doc)).insert((Some(cfg@), section@, key@), path@),
        dev_dep_places(*final(doc)) == dev_dep_places(*old(doc)),
        top_tables(*final(doc)) == top_tables(*old(doc)),
        dependencies_table(*final(doc)) == dependencies_table(*old(doc)),
        agree_outside(leaf_values(*final(doc)), leaf_values(*old(doc)), dep_path_key((Some(cfg@), section@, key@))),
{
    let target = doc.get_mut("target").and_then(|t| t.get_mut(cfg)).and_then(|c| c.get_mut(section));
    match target.and_then(|t| t.get_mut(key)) {
        Some(Item::Value(Value::InlineTable(t))) => {
            t.insert("path", path.into());
        },
        Some(Item::Table(t)) => {
            t.insert("path", toml_edit::value(path));
        },
        _ => {},
    }
}

/// Whether the document has a table-like `workspace` item.
#[verifier::external_body]
fn has_workspace(doc: &DocumentMut) -> (r: bool)
    ensures
        r == top_tables(*doc).contains("workspace"@),
{
    doc.get("workspace").and_then(Item::as_table_like).is_some()
}

/// Whether the `workspace` table has the key `key`.
#[verifier::external_body]
fn workspace_has_key(doc: &DocumentMut, key: &str) -> (r: bool)
    ensures
        r == workspace_keys(*doc).contains(key@),
{
    match doc.get("workspace").and_then(Item::as_table_like) {
        Some(t) => t.contains_key(key),
        None => false,
    }
}

/// Sets `workspace.<key>` to an array of `items` (`TableLike::insert`);
/// whether the table was there. Nothing outside the `workspace` table changes.
#[verifier::external_body]
fn set_workspace_array(doc: &mut DocumentMut, key: &str, items: &Vec<String>) -> (r: bool)
    ensures
        r == top_tables(*old(doc)).contains("workspace"@),
        r ==> workspace_keys(*final(doc)) == workspace_keys(*old(doc)).insert(key@),
        r ==> workspace_arrays(*final(doc)) == workspace_arrays(*old(doc)).insert(key@, views(items@)),
        dep_paths(*final(doc)) == dep_paths(*old(doc)),
        dev_dep_places(*final(doc)) == dev_dep_places(*old(doc)),
        top_tables(*final(doc)) == top_tables(*old(doc)),
        dependencies_table(*final(doc)) == dependencies_table(*old(doc)),
        agree_outside(leaf_values(*final(doc)), leaf_values(*old(doc)), seq!["workspace"@, key@]),
{
    match doc.get_mut("workspace").and_then(Item::as_table_like_mut) {
        Some(t) => {
            t.insert(key, Item::Value(Value::Array(items.iter().map(String::as_str).collect::<Array>())));
            true
        },
        None => false,
    }
}

/// The dependency paths outside every `dev-dependencies` table.
pub open spec fn non_dev_paths(m: Map<DepKey, Seq<char>>) -> Map<DepKey, Seq<char>> {
    Map::new(|k: DepKey| m.contains_key(k) && k.1 != "dev-dependencies"@, |k: DepKey| m[k])
}

/// `d` is the document parsed from `text` without any `dev-dependencies`
/// table: their paths gone, the top-level key gone, every other item kept.
pub open spec fn stripped_document(text: Seq<char>, d: DocumentMut) -> bool {
    parsed_manifest(text) matches Some(f) && dev_dep_places(d) == Set::<Option<Seq<char>>>::empty() && dep_paths(d)
        == non_dev_paths(f.0) && top_tables(d) == f.2.remove("dev-dependencies"@) && dependencies_table(d) == f.3
        && kept_except(leaf_values(d), f.6, |k: Seq<Seq<char>>| dev_key(k))
}

/// A key path inside a `dev-dependencies` table (top level or `target.<cfg>`).
pub open spec fn dev_key(k: Seq<Seq<char>>) -> bool {
    key_prefix(seq!["dev-dependencies"@], k) || (k.len() >= 3 && k[0] == "target"@ && k[2] == "dev-dependencies"@)
}

/// Drops the `[dev-dependencies]` table and every `[target.<cfg>.dev-dependencies]`
/// table of a member manifest: `Ok(Some(text))` when one was removed,
/// `Ok(None)` when there was none, `Err` when the text does not parse.
pub fn strip_dev_dependencies(original: &str) -> (r: Result<Option<String>, String>)
    ensures
        r is Err <==> !toml_parses(original@),
        r matches Err(m) ==> m@.len() >= "parse Cargo.toml: "@.len(),
        r matches Ok(o) ==> (o is Some <==> exists|p: Option<Seq<char>>| #[trigger] manifest_dev_dep_places(original@).contains(p)),
        r matches Ok(Some(t)) ==> exists|d: DocumentMut| #[trigger] rendered_text(d) == t@ && stripped_document(original@, d),
        r matches Ok(Some(t)) ==> stripped_text(original@, t@),
        r matches Ok(o) ==> (o is Some <==> has_dev_deps(original@)),
{
    let mut doc = match parse_document(original) {
        Ok(d) => d,
        Err(e) => {
            let mut m = String::new();
            push_str(&mut m, "parse Cargo.toml: ");
            push_str(&mut m, e.as_str());
            return Err(m);
        },
    };
    let ghost p0 = dev_dep_places(doc);
    let ghost d0 = doc;
    let ghost m0 = dep_paths(doc);
    proof {
        assert(manifest_dev_dep_places(original@) == p0);
    }
    let mut removed = remove_top_dev_deps(&mut doc);
    let ghost top1 = top_tables(doc);
    let cfgs = target_keys(&doc);
    proof {
        assert forall|p: Option<Seq<char>>| #[trigger] p0.contains(p) && p is Some implies views(cfgs@).contains(p->0) by {
            assert(dev_dep_places(doc).contains(p));
        }
        assert forall|k: DepKey| #[trigger] m0.contains_key(k) && k.0 is Some implies views(cfgs@).contains(k.0->0) by {
            assert(dep_paths(doc).contains_key(k));
        }
        assert forall|k: Seq<Seq<char>>| !dev_key(k) implies (#[trigger] leaf_values(doc).contains_key(k) <==> leaf_values(
            d0,
        ).contains_key(k)) && (leaf_values(doc).contains_key(k) ==> leaf_values(doc)[k] == leaf_values(d0)[k]) by {
            assert(!key_prefix(seq!["dev-dependencies"@], k));
        }
    }
    let mut i: usize = 0;
    while i < cfgs.len()
        invariant
            i <= cfgs@.len(),
            forall|p: Option<Seq<char>>| #[trigger] dev_dep_places(doc).contains(p) ==> p0.contains(p) && p is Some,
            forall|p: Option<Seq<char>>| #[trigger] p0.contains(p) && p is Some ==> views(cfgs@).contains(p->0),
            removed ==> exists|p: Option<Seq<char>>| #[trigger] p0.contains(p),
            forall|p: Option<Seq<char>>| #[trigger] p0.contains(p) && !dev_dep_places(doc).contains(p) ==> removed,
            forall|t: int| 0 <= t < i ==> !dev_dep_places(doc).contains(Some(#[trigger] cfgs@[t]@)),
            forall|k: DepKey| #[trigger] dep_paths(doc).contains_key(k) ==> m0.contains_key(k) && dep_paths(doc)[k] == m0[k],
            forall|k: DepKey| #[trigger] m0.contains_key(k) && k.1 != "dev-dependencies"@ ==> dep_paths(doc).contains_key(k),
            forall|k: DepKey| #[trigger] dep_paths(doc).contains_key(k) && k.1 == "dev-dependencies"@ ==> k.0 is Some,
            forall|k: DepKey, t: int| 0 <= t < i && #[trigger] dep_paths(doc).contains_key(k) && k.1 == "dev-dependencies"@ ==> k.0
                != Some(#[trigger] cfgs@[t]@),
            forall|k: DepKey| #[trigger] m0.contains_key(k) && k.0 is Some ==> views(cfgs@).contains(k.0->0),
            top_tables(doc) == top1,
            top1 == top_tables(d0).remove("dev-dependencies"@),
            dependencies_table(doc) == dependencies_table(d0),
            kept_except(leaf_values(doc), leaf_values(d0), |k: Seq<Seq<char>>| dev_key(k)),
        decreases cfgs@.len() - i,
    {
        let ghost lv = leaf_values(doc);
        if remove_target_dev_deps(&mut doc, cfgs[i].as_str()) {
            removed = true;
        }
        proof {
            let p = seq!["target"@, cfgs@[i as int]@, "dev-dependencies"@];
            assert forall|k: Seq<Seq<char>>| !dev_key(k) implies (#[trigger] leaf_values(doc).contains_key(k) <==> leaf_values(
                d0,
            ).contains_key(k)) && (leaf_values(doc).contains_key(k) ==> leaf_values(doc)[k] == leaf_values(d0)[k]) by {
                if key_prefix(p, k) {
                    assert(k.subrange(0, 3)[0] == k[0] && k.subrange(0, 3)[2] == k[2]);
                }
                assert(!key_prefix(p, k));
                assert(lv.contains_key(k) <==> leaf_values(d0).contains_key(k));
            }
        }
        i = i + 1;
    }
    proof {
        assert forall|p: Option<Seq<char>>| #[trigger] p0.contains(p) implies removed by {
            if p is Some {
                assert(views(cfgs@).contains(p->0));
                let t = choose|t: int| 0 <= t < views(cfgs@).len() && views(cfgs@)[t] == p->0;
                assert(cfgs@[t]@ == p->0);
                assert(!dev_dep_places(doc).contains(p));
            }
        }
    }
    if removed {
        let t = render_document(&doc);
        proof {
            assert forall|p: Option<Seq<char>>| !dev_dep_places(doc).contains(p) by {
                if dev_dep_places(doc).contains(p) {
                    assert(p0.contains(p) && p is Some);
                    assert(views(cfgs@).contains(p->0));
                    let t = choose|t: int| 0 <= t < views(cfgs@).len() && views(cfgs@)[t] == p->0;
                    assert(cfgs@[t]@ == p->0);
                }
            }
            assert(dev_dep_places(doc) =~= Set::<Option<Seq<char>>>::empty());
            assert forall|k: DepKey| #[trigger] dep_paths(doc).contains_key(k) implies k.1 != "dev-dependencies"@ by {
                if k.1 == "dev-dependencies"@ {
                    assert(m0.contains_key(k));
                    assert(views(cfgs@).contains(k.0->0));
                    let t = choose|t: int| 0 <= t < views(cfgs@).len() && views(cfgs@)[t] == k.0->0;
                    assert(cfgs@[t]@ == k.0->0);
                }
            }
            assert(dep_paths(doc) =~= non_dev_paths(m0));
            assert(stripped_document(original@, doc));
        }
        Ok(Some(t))
    } else {
        Ok(None)
    }
}


/// Strictly increasing by [`str_lt`] (so without repeats).
pub open spec fn strictly_sorted(v: Seq<Seq<char>>) -> bool {
    forall|i: int| 0 <= i < v.len() - 1 ==> str_lt(#[trigger] v[i], v[i + 1])
}


proof fn lemma_sorted_distinct(v: Seq<Seq<char>>, i: int, j: int)
    requires
        strictly_sorted(v),
        0 <= i < j < v.len(),
    ensures
        str_lt(v[i], v[j]),
    decreases j - i,
{
    if j == i + 1 {
    } else {
        lemma_sorted_distinct(v, i, j - 1);
        lemma_str_lt_trans(v[i], v[j - 1], v[j]);
    }
}

/// Inserts `x` into a strictly sorted list unless it is already there.
fn insert_unique_sorted(v: &mut Vec<String>, x: String)
    requires
        strictly_sorted(views(old(v)@)),
    ensures
        strictly_sorted(views(final(v)@)),
        forall|y: Seq<char>| views(final(v)@).contains(y) <==> (views(old(v)@).contains(y) || y == x@),
{
    let mut p = v.len();
    let mut done = false;
    while !done && p > 0
        invariant
            p <= v.len(),
            v@ == old(v)@,
            strictly_sorted(views(v@)),
            forall|k: int| p <= k < v.len() ==> str_lt(x@, #[trigger] views(v@)[k]),
            done ==> p > 0 && !str_lt(x@, views(v@)[p - 1]),
        decreases p + (if done { 0int } else { 1int }),
    {
        if str_less(x.as_str(), v[p - 1].as_str()) {
            p = p - 1;
        } else {
            done = true;
        }
    }
    let ghost old_v = views(v@);
    if p > 0 && str_eq(v[p - 1].as_str(), x.as_str()) {
        proof {
            assert(old_v[p - 1] == x@);
            assert forall|y: Seq<char>| old_v.contains(y) <==> (old_v.contains(y) || y == x@) by {
                if y == x@ {
                    assert(old_v[p - 1] == y);
                }
            }
        }
        return;
    }
    let ghost xv = x@;
    proof {
        if p > 0 {
            lemma_str_lt_total(xv, old_v[p - 1]);
        }
    }
    v.insert(p, x);
    proof {
        let nv = views(v@);
        assert(nv =~= old_v.insert(p as int, xv));
        old_v.insert_ensures(p as int, xv);
        assert forall|i: int| 0 <= i < nv.len() - 1 implies str_lt(#[trigger] nv[i], nv[i + 1]) by {
            if i + 1 < p {
                assert(nv[i + 1] == old_v[i + 1] && nv[i] == old_v[i]);
            } else if i + 1 == p {
                assert(nv[i + 1] == xv && nv[i] == old_v[i]);
            } else if i == p {
                assert(nv[i] == xv && nv[i + 1] == old_v[i]);
            } else {
                assert(nv[i + 1] == old_v[i] && nv[i] == old_v[i - 1]);
            }
        }
        assert forall|y: Seq<char>| nv.contains(y) <==> (old_v.contains(y) || y == xv) by {
            if nv.contains(y) {
                let k = choose|k: int| 0 <= k < nv.len() && nv[k] == y;
                if k < p {
                    assert(old_v[k] == y);
                } else if k > p {
                    assert(old_v[k - 1] == y);
                }
            }
            if old_v.contains(y) {
                let k = choose|k: int| 0 <= k < old_v.len() && old_v[k] == y;
                if k < p {
                    assert(nv[k] == y);
                } else {
                    assert(nv[k + 1] == y);
                }
            }
            if y == xv {
                assert(nv[p as int] == y);
            }
        }
    }
}

/// A closure directory's member path: its path relative to the workspace
/// root, when it lies under it and is not the root itself.
pub open spec fn member_path(ws_root: Seq<char>, d: Seq<char>) -> Option<Seq<char>> {
    match spec_strip_prefix(d, ws_root) {
        Some(rel) => if rel.len() > 0 {
            Some(rel)
        } else {
            None
        },
        None => None,
    }
}

/// The member paths of the closure directories: each once, in string order.
pub fn workspace_relative_members(workspace_root: &str, dirs: &Vec<String>) -> (r: Vec<String>)
    ensures
        strictly_sorted(views(r@)),
        forall|y: Seq<char>| views(r@).contains(y) <==> exists|i: int| 0 <= i < dirs@.len() && member_path(workspace_root@, #[trigger] dirs@[i]@) == Some(y),
{
    let mut r: Vec<String> = Vec::new();
    let mut i: usize = 0;
    while i < dirs.len()
        invariant
            i <= dirs@.len(),
            strictly_sorted(views(r@)),
            forall|y: Seq<char>| views(r@).contains(y) <==> exists|k: int| 0 <= k < i && member_path(workspace_root@, #[trigger] dirs@[k]@) == Some(y),
        decreases dirs@.len() - i,
    {
        let ghost before = views(r@);
        match strip_prefix(dirs[i].as_str(), workspace_root) {
            Some(rel) => {
                if rel.unicode_len() > 0 {
                    let ghost relv = rel@;
                    insert_unique_sorted(&mut r, rel);
                    proof {
                        assert forall|y: Seq<char>| views(r@).contains(y) <==> exists|k: int| 0 <= k < i + 1 && member_path(workspace_root@, #[trigger] dirs@[k]@) == Some(y) by {
                            if y == relv {
                                assert(member_path(workspace_root@, dirs@[i as int]@) == Some(y));
                            }
                            if exists|k: int| 0 <= k < i + 1 && member_path(workspace_root@, #[trigger] dirs@[k]@) == Some(y) {
                                let k = choose|k: int| 0 <= k < i + 1 && member_path(workspace_root@, #[trigger] dirs@[k]@) == Some(y);
                                if k < i {
                                    assert(before.contains(y));
                                }
                            }
                        }
                    }
                } else {
                    proof {
                        assert forall|y: Seq<char>| views(r@).contains(y) <==> exists|k: int| 0 <= k < i + 1 && member_path(workspace_root@, #[trigger] dirs@[k]@) == Some(y) by {
                            if exists|k: int| 0 <= k < i + 1 && member_path(workspace_root@, #[trigger] dirs@[k]@) == Some(y) {
                                let k = choose|k: int| 0 <= k < i + 1 && member_path(workspace_root@, #[trigger] dirs@[k]@) == Some(y);
                                assert(k != i);
                            }
                        }
                    }
                }
            },
            None => {
                proof {
                    assert forall|y: Seq<char>| views(r@).contains(y) <==> exists|k: int| 0 <= k < i + 1 && member_path(workspace_root@, #[trigger] dirs@[k]@) == Some(y) by {
                        if exists|k: int| 0 <= k < i + 1 && member_path(workspace_root@, #[trigger] dirs@[k]@) == Some(y) {
                            let k = choose|k: int| 0 <= k < i + 1 && member_path(workspace_root@, #[trigger] dirs@[k]@) == Some(y);
                            assert(k != i);
                        }
                    }
                }
            },
        }
        i = i + 1;
    }
    r
}

/// `v` lists the closure's member paths: each once, in string order.
pub open spec fn members_for(ws_root: Seq<char>, dirs: Seq<String>, v: Seq<Seq<char>>) -> bool {
    &&& strictly_sorted(v)
    &&& forall|y: Seq<char>| v.contains(y) <==> exists|i: int| 0 <= i < dirs.len() && member_path(ws_root, #[trigger] dirs[i]@) == Some(y)
}

/// The workspace string arrays after the cut: `members` set to `v`,
/// `default-members` too when the table has it, `exclude` emptied when it has it.
pub open spec fn cut_arrays(a: Map<Seq<char>, Seq<Seq<char>>>, keys: Set<Seq<char>>, v: Seq<Seq<char>>) -> Map<Seq<char>, Seq<Seq<char>>> {
    let a1 = a.insert("members"@, v);
    let a2 = if keys.contains("default-members"@) {
        a1.insert("default-members"@, v)
    } else {
        a1
    };
    if keys.contains("exclude"@) {
        a2.insert("exclude"@, Seq::empty())
    } else {
        a2
    }
}

/// `d` is the workspace document parsed from `text` with its member arrays cut
/// to `v`, and every other item kept.
pub open spec fn members_cut(text: Seq<char>, v: Seq<Seq<char>>, d: DocumentMut) -> bool {
    &&& parsed_manifest(text) matches Some(f)
    &&& dep_paths(d) == f.0 && dev_dep_places(d) == f.1 && top_tables(d) == f.2 && dependencies_table(d) == f.3
    &&& workspace_keys(d) == f.4.insert("members"@)
    &&& workspace_arrays(d) == cut_arrays(f.5, f.4, v)
    &&& kept_except(leaf_values(d), f.6, |k: Seq<Seq<char>>| member_key(k))
}

/// A key path inside `workspace.members`, `workspace.default-members` or
/// `workspace.exclude`.
pub open spec fn member_key(k: Seq<Seq<char>>) -> bool {
    k.len() >= 2 && k[0] == "workspace"@ && (k[1] == "members"@ || k[1] == "default-members"@ || k[1] == "exclude"@)
}

/// `out` is the workspace manifest `text` with its members cut to the
/// closure: the text itself when it has no `[workspace]` table, else the
/// render of the cut document.
pub open spec fn cut_manifest(text: Seq<char>, ws_root: Seq<char>, dirs: Seq<String>, out: Seq<char>) -> bool {
    if manifest_top_tables(text).contains("workspace"@) {
        exists|v: Seq<Seq<char>>, d: DocumentMut| #[trigger] rendered_text(d) == out && members_for(ws_root, dirs, v)
            && #[trigger] members_cut(text, v, d)
    } else {
        out == text
    }
}

/// A manifest has a `dev-dependencies` table somewhere.
pub open spec fn has_dev_deps(text: Seq<char>) -> bool {
    exists|p: Option<Seq<char>>| #[trigger] manifest_dev_dep_places(text).contains(p)
}

/// `out` is the render of the document parsed from `text` without its
/// `dev-dependencies` tables.
pub open spec fn stripped_text(text: Seq<char>, out: Seq<char>) -> bool {
    exists|d: DocumentMut| #[trigger] rendered_text(d) == out && stripped_document(text, d)
}

/// Cuts the workspace manifest's `members` (and `default-members`, when
/// present) down to the closure's member paths and empties `exclude` (when
/// present); a manifest without a `[workspace]` table is returned unchanged.
pub fn rewrite_workspace_members(original: &str, workspace_root: &str, dirs: &Vec<String>) -> (r: Result<String, String>)
    ensures
        r is Err <==> !toml_parses(original@),
        r matches Err(m) ==> m@.len() >= "parse Cargo.toml: "@.len(),
        toml_parses(original@) && !manifest_top_tables(original@).contains("workspace"@) ==> (r matches Ok(o) && o@
            == original@),
        toml_parses(original@) && manifest_top_tables(original@).contains("workspace"@) ==> (r matches Ok(t)
            && exists|v: Seq<Seq<char>>, d: DocumentMut| #[trigger] rendered_text(d) == t@ && members_for(workspace_root@, dirs@, v)
            && #[trigger] members_cut(original@, v, d)),
        r matches Ok(t) ==> cut_manifest(original@, workspace_root@, dirs@, t@),
{
    let mut doc = match parse_document(original) {
        Ok(d) => d,
        Err(e) => {
            let mut m = String::new();
            push_str(&mut m, "parse Cargo.toml: ");
            push_str(&mut m, e.as_str());
            return Err(m);
        },
    };
    if !has_workspace(&doc) {
        return Ok(String::from_str(original));
    }
    let ghost d0 = doc;
    let rel = workspace_relative_members(workspace_root, dirs);
    proof {
        reveal_strlit("members");
        reveal_strlit("default-members");
        reveal_strlit("exclude");
        assert(("members"@).len() != ("default-members"@).len());
        assert(("exclude"@)[0] != ("members"@)[0] && ("exclude"@)[0] != ("default-members"@)[0]);
    }
    set_workspace_array(&mut doc, "members", &rel);
    let ghost had_default = workspace_keys(d0).contains("default-members"@);
    let ghost had_exclude = workspace_keys(d0).contains("exclude"@);
    if workspace_has_key(&doc, "default-members") {
        set_workspace_array(&mut doc, "default-members", &rel);
    }
    if workspace_has_key(&doc, "exclude") {
        let empty: Vec<String> = Vec::new();
        proof {
            assert(views(empty@) =~= Seq::<Seq<char>>::empty());
        }
        set_workspace_array(&mut doc, "exclude", &empty);
    }
    let t = render_document(&doc);
    proof {
        let v = views(rel@);
        let a = workspace_arrays(d0);
        let k = workspace_keys(d0);
        assert(workspace_keys(doc) =~= k.insert("members"@));
        assert(workspace_arrays(doc) =~= cut_arrays(a, k, v));
        assert(members_cut(original@, v, doc));
        assert(members_for(workspace_root@, dirs@, v));
    }
    Ok(t)
}

/// A dependency entry: its `target.<cfg>`, table, name and a path.
pub type DepEntry = (Option<String>, String, String, String);

/// The place of an entry.
pub open spec fn entry_key(e: DepEntry) -> DepKey {
    (crate::config::opt_owned(e.0), e.1@, e.2@)
}

/// Each entry from `start` on names a dependency path of `m` and carries it.
pub open spec fn entries_sound(m: Map<DepKey, Seq<char>>, v: Seq<DepEntry>, start: int) -> bool {
    forall|i: int| start <= i < v.len() ==> m.contains_key(#[trigger] entry_key(v[i])) && m[entry_key(v[i])] == v[i].3@
}

/// The entry `key` is among the entries from `start` on.
pub open spec fn entry_listed(v: Seq<DepEntry>, start: int, key: DepKey) -> bool {
    exists|i: int| start <= i < v.len() && #[trigger] entry_key(v[i]) == key
}

fn owned_cfg(cfg: Option<&str>) -> (r: Option<String>)
    ensures
        crate::config::opt_owned(r) == crate::config::opt_borrowed(cfg),
{
    match cfg {
        Some(c) => Some(String::from_str(c)),
        None => None,
    }
}

/// Appends the path-holding dependencies of one table (`cfg`: its
/// `target.<cfg>`, none for the top-level table).
fn collect_table(doc: &DocumentMut, cfg: Option<&str>, section: &str, out: &mut Vec<DepEntry>)
    requires
        dep_section(section@),
        entries_sound(dep_paths(*doc), old(out)@, 0),
    ensures
        final(out)@.len() >= old(out)@.len(),
        forall|i: int| 0 <= i < old(out)@.len() ==> final(out)@[i] == old(out)@[i],
        entries_sound(dep_paths(*doc), final(out)@, 0),
        forall|k: Seq<char>| #[trigger] dep_paths(*doc).contains_key((crate::config::opt_borrowed(cfg), section@, k))
            ==> entry_listed(final(out)@, 0, (crate::config::opt_borrowed(cfg), section@, k)),
{
    let keys = match cfg {
        None => top_dep_keys(doc, section),
        Some(c) => match target_dep_keys(doc, c, section) {
            Some(v) => v,
            None => Vec::new(),
        },
    };
    let ghost c = crate::config::opt_borrowed(cfg);
    let ghost start = out@;
    let mut j: usize = 0;
    while j < keys.len()
        invariant
            j <= keys@.len(),
            dep_section(section@),
            c == crate::config::opt_borrowed(cfg),
            forall|k: Seq<char>| #[trigger] dep_paths(*doc).contains_key((c, section@, k)) ==> views(keys@).contains(k),
            out@.len() >= start.len(),
            forall|i: int| 0 <= i < start.len() ==> out@[i] == start[i],
            entries_sound(dep_paths(*doc), out@, 0),
            forall|t: int| 0 <= t < j && #[trigger] dep_paths(*doc).contains_key((c, section@, keys@[t]@)) ==> entry_listed(
                out@,
                0,
                (c, section@, keys@[t]@),
            ),
        decreases keys@.len() - j,
    {
        let path = match cfg {
            None => top_dep_path(doc, section, keys[j].as_str()),
            Some(cf) => target_dep_path(doc, cf, section, keys[j].as_str()),
        };
        match path {
            Some(p) => {
                let e: DepEntry = (owned_cfg(cfg), String::from_str(section), keys[j].clone(), p);
                let ghost before = out@;
                out.push(e);
                proof {
                    assert(entry_key(out@[out@.len() - 1]) == (c, section@, keys@[j as int]@));
                    assert forall|t: int| 0 <= t < j + 1 && #[trigger] dep_paths(*doc).contains_key((c, section@, keys@[t]@)) implies entry_listed(
                        out@,
                        0,
                        (c, section@, keys@[t]@),
                    ) by {
                        if t < j {
                            let i = choose|i: int| 0 <= i < before.len() && #[trigger] entry_key(before[i]) == (c, section@, keys@[t]@);
                            assert(out@[i] == before[i]);
                        } else {
                            assert(entry_key(out@[out@.len() - 1]) == (c, section@, keys@[t]@));
                        }
                    }
                }
            },
            None => {},
        }
        j = j + 1;
    }
    proof {
        assert forall|k: Seq<char>| #[trigger] dep_paths(*doc).contains_key((c, section@, k)) implies entry_listed(out@, 0, (c, section@, k)) by {
            assert(views(keys@).contains(k));
            let t = choose|t: int| 0 <= t < views(keys@).len() && views(keys@)[t] == k;
            assert(keys@[t]@ == k);
        }
    }
}

/// Every path-holding dependency of the document, from the top-level tables and
/// from each `target.<cfg>` table.
fn dep_entries(doc: &DocumentMut) -> (r: Vec<DepEntry>)
    requires
        forall|k: DepKey| #[trigger] dep_paths(*doc).contains_key(k) ==> dep_section(k.1),
    ensures
        entries_sound(dep_paths(*doc), r@, 0),
        forall|k: DepKey| #[trigger] dep_paths(*doc).contains_key(k) ==> entry_listed(r@, 0, k),
{
    let mut out: Vec<DepEntry> = Vec::new();
    collect_table(doc, None, "dependencies", &mut out);
    let ghost o1 = out@;
    collect_table(doc, None, "build-dependencies", &mut out);
    let ghost o2 = out@;
    collect_table(doc, None, "dev-dependencies", &mut out);
    proof {
        assert forall|k: DepKey| #[trigger] dep_paths(*doc).contains_key(k) && k.0 is None implies entry_listed(out@, 0, k) by {
            assert(k == (None::<Seq<char>>, k.1, k.2));
            if k.1 == "dependencies"@ {
                let w = choose|w: int| 0 <= w < o1.len() && #[trigger] entry_key(o1[w]) == k;
                assert(o2[w] == o1[w]);
                assert(out@[w] == o2[w]);
            } else if k.1 == "build-dependencies"@ {
                let w = choose|w: int| 0 <= w < o2.len() && #[trigger] entry_key(o2[w]) == k;
                assert(out@[w] == o2[w]);
            }
        }
    }
    let cfgs = target_keys(doc);
    let mut i: usize = 0;
    while i < cfgs.len()
        invariant
            i <= cfgs@.len(),
            forall|k: DepKey| #[trigger] dep_paths(*doc).contains_key(k) ==> dep_section(k.1),
            forall|k: DepKey| #[trigger] dep_paths(*doc).contains_key(k) && k.0 is Some ==> views(cfgs@).contains(k.0->0),
            entries_sound(dep_paths(*doc), out@, 0),
            forall|k: DepKey| #[trigger] dep_paths(*doc).contains_key(k) && k.0 is None ==> entry_listed(out@, 0, k),
            forall|k: DepKey, t: int| 0 <= t < i && #[trigger] dep_paths(*doc).contains_key(k) && k.0 == Some(#[trigger] cfgs@[t]@) ==> entry_listed(out@, 0, k),
        decreases cfgs@.len() - i,
    {
        let ghost before = out@;
        let c = cfgs[i].as_str();
        collect_table(doc, Some(c), "dependencies", &mut out);
        collect_table(doc, Some(c), "build-dependencies", &mut out);
        collect_table(doc, Some(c), "dev-dependencies", &mut out);
        proof {
            assert forall|k: DepKey| #[trigger] dep_paths(*doc).contains_key(k) && k.0 is None implies entry_listed(out@, 0, k) by {
                let w = choose|w: int| 0 <= w < before.len() && #[trigger] entry_key(before[w]) == k;
                assert(out@[w] == before[w]);
            }
            assert forall|k: DepKey, t: int| 0 <= t < i + 1 && #[trigger] dep_paths(*doc).contains_key(k) && k.0 == Some(#[trigger] cfgs@[t]@) implies entry_listed(out@, 0, k) by {
                if t < i {
                    let w = choose|w: int| 0 <= w < before.len() && #[trigger] entry_key(before[w]) == k;
                    assert(out@[w] == before[w]);
                } else {
                    assert(k == (Some(c@), k.1, k.2));
                    assert(dep_section(k.1));
                }
            }
        }
        i = i + 1;
    }
    proof {
        assert forall|k: DepKey| #[trigger] dep_paths(*doc).contains_key(k) implies entry_listed(out@, 0, k) by {
            if k.0 is Some {
                assert(views(cfgs@).contains(k.0->0));
                let t = choose|t: int| 0 <= t < views(cfgs@).len() && views(cfgs@)[t] == k.0->0;
                assert(cfgs@[t]@ == k.0->0);
            }
        }
    }
    out
}

/// The new `path` of a dependency whose path is `p` in a shadow manifest: its
/// on-disk resolution (from `resolved`, later entries winning) when that is to
/// be written ([`spec_path_dep_rewrite`]); none when it stays or has no resolution.
pub open spec fn dep_rewrite(p: Seq<char>, resolved: Map<Seq<char>, Seq<char>>, closure: Seq<Seq<char>>) -> Option<Seq<char>> {
    if resolved.contains_key(p) {
        spec_path_dep_rewrite(p, resolved[p], closure)
    } else {
        None
    }
}

/// `e` is the rewrite of one of the first `n` entries.
pub open spec fn rewrite_of_some(
    entries: Seq<DepEntry>,
    n: int,
    e: DepEntry,
    resolved: Map<Seq<char>, Seq<char>>,
    closure: Seq<Seq<char>>,
) -> bool {
    exists|t: int| 0 <= t < n && entry_key(e) == entry_key(#[trigger] entries[t]) && dep_rewrite(entries[t].3@, resolved, closure) == Some(e.3@)
}

/// The rewrites of the entries, in order.
fn planned_rewrites(entries: &Vec<DepEntry>, resolutions: &Vec<(String, String)>, closure_dirs: &Vec<String>) -> (r: Vec<DepEntry>)
    ensures
        forall|i: int| 0 <= i < r@.len() ==> rewrite_of_some(entries@, entries@.len() as int, #[trigger] r@[i], log_map(resolutions@), views(closure_dirs@)),
        forall|t: int| 0 <= t < entries@.len() && (dep_rewrite(#[trigger] entries@[t].3@, log_map(resolutions@), views(closure_dirs@))
            is Some) ==> entry_listed(r@, 0, entry_key(entries@[t])),
{
    let mut r: Vec<DepEntry> = Vec::new();
    let mut t: usize = 0;
    while t < entries.len()
        invariant
            t <= entries@.len(),
            forall|i: int| 0 <= i < r@.len() ==> rewrite_of_some(entries@, t as int, #[trigger] r@[i], log_map(resolutions@), views(closure_dirs@)),
            forall|u: int| 0 <= u < t && (dep_rewrite(#[trigger] entries@[u].3@, log_map(resolutions@), views(closure_dirs@))
                is Some) ==> entry_listed(r@, 0, entry_key(entries@[u])),
        decreases entries@.len() - t,
    {
        let e = &entries[t];
        let ghost before = r@;
        match log_lookup(resolutions, e.3.as_str()) {
            Some(resolved) => {
                match path_dep_rewrite(e.3.as_str(), resolved.as_str(), closure_dirs) {
                    Some(abs) => {
                        let cfg = match &e.0 {
                            Some(c) => Some(c.clone()),
                            None => None,
                        };
                        r.push((cfg, e.1.clone(), e.2.clone(), abs));
                        proof {
                            assert(entry_key(r@[r@.len() - 1]) == entry_key(entries@[t as int]));
                            assert forall|i: int| 0 <= i < r@.len() implies rewrite_of_some(
                                entries@,
                                t + 1,
                                #[trigger] r@[i],
                                log_map(resolutions@),
                                views(closure_dirs@),
                            ) by {
                                if i < before.len() {
                                    assert(r@[i] == before[i]);
                                    assert(rewrite_of_some(entries@, t as int, before[i], log_map(resolutions@), views(closure_dirs@)));
                                    let u = choose|u: int| 0 <= u < t && entry_key(before[i]) == entry_key(#[trigger] entries@[u])
                                        && dep_rewrite(entries@[u].3@, log_map(resolutions@), views(closure_dirs@)) == Some(before[i].3@);
                                    assert(entry_key(r@[i]) == entry_key(entries@[u]));
                                } else {
                                    assert(entry_key(r@[i]) == entry_key(entries@[t as int]));
                                }
                            }
                            assert forall|u: int| 0 <= u < t + 1 && (dep_rewrite(#[trigger] entries@[u].3@, log_map(resolutions@), views(closure_dirs@))
                                is Some) implies entry_listed(r@, 0, entry_key(entries@[u])) by {
                                if u < t {
                                    let w = choose|w: int| 0 <= w < before.len() && #[trigger] entry_key(before[w]) == entry_key(entries@[u]);
                                    assert(r@[w] == before[w]);
                                } else {
                                    assert(entry_key(r@[r@.len() - 1]) == entry_key(entries@[u]));
                                }
                            }
                        }
                    },
                    None => {},
                }
            },
            None => {},
        }
        t = t + 1;
    }
    r
}

/// The dependency paths after the rewrite: each path with a rewrite
/// ([`dep_rewrite`]) replaced by it, the others kept.
pub open spec fn rewritten_paths(m: Map<DepKey, Seq<char>>, resolved: Map<Seq<char>, Seq<char>>, closure: Seq<Seq<char>>) -> Map<
    DepKey,
    Seq<char>,
> {
    Map::new(
        |k: DepKey| m.contains_key(k),
        |k: DepKey|
            match dep_rewrite(m[k], resolved, closure) {
                Some(a) => a,
                None => m[k],
            },
    )
}

/// `d` is the document parsed from `text` with its dependency paths rewritten
/// and everything else kept: its tables, its `dev-dependencies` places, its
/// `[dependencies]` entries, and every item outside the dependencies' `path` items.
pub open spec fn rewritten_document(
    text: Seq<char>,
    resolved: Map<Seq<char>, Seq<char>>,
    closure: Seq<Seq<char>>,
    d: DocumentMut,
) -> bool {
    parsed_manifest(text) matches Some(f) && dep_paths(d) == rewritten_paths(f.0, resolved, closure) && dev_dep_places(d) == f.1
        && top_tables(d) == f.2 && dependencies_table(d) == f.3 && kept_except(
        leaf_values(d),
        f.6,
        |k: Seq<Seq<char>>| exists|dk: DepKey| #[trigger] f.0.contains_key(dk) && key_prefix(dep_path_key(dk), k),
    )
}

/// Rewrites, in a shadow manifest, every relative path dependency whose
/// on-disk resolution (`resolutions`: path as written, resolved directory) is
/// not a shadow-closure directory to that resolution, in the `dependencies`,
/// `build-dependencies` and `dev-dependencies` tables and their `target.<cfg>`
/// variants, formatting preserved: `Some(text)` when some dependency was
/// rewritten, `None` when none needed it or the text does not parse. The text
/// is the render of the parsed document with exactly those paths rewritten.
pub fn rewrite_path_deps_to_absolute(manifest: &str, resolutions: &Vec<(String, String)>, closure_dirs: &Vec<String>) -> (r: Option<String>)
    ensures
        r is Some <==> toml_parses(manifest@) && exists|k: DepKey| #[trigger] manifest_dep_paths(manifest@).contains_key(k)
            && dep_rewrite(manifest_dep_paths(manifest@)[k], log_map(resolutions@), views(closure_dirs@)) is Some,
        r matches Some(t) ==> exists|d: DocumentMut| #[trigger] rendered_text(d) == t@ && rewritten_document(
            manifest@,
            log_map(resolutions@),
            views(closure_dirs@),
            d,
        ),
{
    let mut doc = match parse_document(manifest) {
        Ok(d) => d,
        Err(_) => {
            return None;
        },
    };
    let ghost m0 = dep_paths(doc);
    let ghost d0 = doc;
    let ghost res = log_map(resolutions@);
    let ghost cl = views(closure_dirs@);
    let entries = dep_entries(&doc);
    let plan = planned_rewrites(&entries, resolutions, closure_dirs);
    proof {
        assert forall|j: int| 0 <= j < plan@.len() implies m0.contains_key(#[trigger] entry_key(plan@[j]))
            && dep_rewrite(m0[entry_key(plan@[j])], res, cl) == Some(plan@[j].3@) by {
            assert(rewrite_of_some(entries@, entries@.len() as int, plan@[j], res, cl));
            let t = choose|t: int| 0 <= t < entries@.len() && entry_key(plan@[j]) == entry_key(#[trigger] entries@[t])
                && dep_rewrite(entries@[t].3@, res, cl) == Some(plan@[j].3@);
            assert(m0.contains_key(entry_key(entries@[t])) && m0[entry_key(entries@[t])] == entries@[t].3@);
        }
    }
    let mut i: usize = 0;
    while i < plan.len()
        invariant
            i <= plan@.len(),
            dep_paths(doc).dom() == m0.dom(),
            forall|j: int| 0 <= j < plan@.len() ==> m0.contains_key(#[trigger] entry_key(plan@[j]))
                && dep_rewrite(m0[entry_key(plan@[j])], res, cl) == Some(plan@[j].3@),
            forall|j: int| 0 <= j < i ==> Some(dep_paths(doc)[#[trigger] entry_key(plan@[j])]) == dep_rewrite(
                m0[entry_key(plan@[j])],
                res,
                cl,
            ),
            forall|k: DepKey| #[trigger] m0.contains_key(k) && !entry_listed(plan@.subrange(0, i as int), 0, k) ==> dep_paths(doc)[k]
                == m0[k],
            dev_dep_places(doc) == dev_dep_places(d0),
            top_tables(doc) == top_tables(d0),
            dependencies_table(doc) == dependencies_table(d0),
            kept_except(
                leaf_values(doc),
                leaf_values(d0),
                |k: Seq<Seq<char>>| exists|dk: DepKey| #[trigger] m0.contains_key(dk) && key_prefix(dep_path_key(dk), k),
            ),
        decreases plan@.len() - i,
    {
        let e = &plan[i];
        let ghost key = entry_key(plan@[i as int]);
        let ghost before = dep_paths(doc);
        let ghost lv = leaf_values(doc);
        match &e.0 {
            None => set_top_dep_path(&mut doc, e.1.as_str(), e.2.as_str(), e.3.as_str()),
            Some(c) => set_target_dep_path(&mut doc, c.as_str(), e.1.as_str(), e.2.as_str(), e.3.as_str()),
        }
        proof {
            assert forall|k: Seq<Seq<char>>| !(exists|dk: DepKey| #[trigger] m0.contains_key(dk) && key_prefix(dep_path_key(dk), k)) implies (
            #[trigger] leaf_values(doc).contains_key(k) <==> leaf_values(d0).contains_key(k)) && (leaf_values(doc).contains_key(k)
                ==> leaf_values(doc)[k] == leaf_values(d0)[k]) by {
                assert(m0.contains_key(key));
                assert(!key_prefix(dep_path_key(key), k));
                assert(lv.contains_key(k) <==> leaf_values(d0).contains_key(k));
            }
            assert(dep_paths(doc) == before.insert(key, plan@[i as int].3@));
            assert(dep_paths(doc).dom() =~= m0.dom());
            assert forall|k: DepKey| #[trigger] m0.contains_key(k) && !entry_listed(plan@.subrange(0, i + 1), 0, k) implies dep_paths(doc)[k]
                == m0[k] by {
                assert(plan@.subrange(0, i + 1)[i as int] == plan@[i as int]);
                assert(k != key);
                if entry_listed(plan@.subrange(0, i as int), 0, k) {
                    let w = choose|w: int| 0 <= w < i && #[trigger] entry_key(plan@.subrange(0, i as int)[w]) == k;
                    assert(plan@.subrange(0, i + 1)[w] == plan@.subrange(0, i as int)[w]);
                }
            }
        }
        i = i + 1;
    }
    proof {
        assert forall|k: DepKey| #[trigger] m0.contains_key(k) implies dep_paths(doc)[k] == rewritten_paths(m0, res, cl)[k] by {
            if dep_rewrite(m0[k], res, cl) is Some {
                let t = choose|t: int| 0 <= t < entries@.len() && #[trigger] entry_key(entries@[t]) == k;
                assert(entries@[t].3@ == m0[k]);
                assert(entry_listed(plan@, 0, k));
                let w = choose|w: int| 0 <= w < plan@.len() && #[trigger] entry_key(plan@[w]) == k;
                assert(Some(dep_paths(doc)[entry_key(plan@[w])]) == dep_rewrite(m0[entry_key(plan@[w])], res, cl));
            } else {
                assert(plan@.subrange(0, plan@.len() as int) =~= plan@);
                if entry_listed(plan@, 0, k) {
                    let w = choose|w: int| 0 <= w < plan@.len() && #[trigger] entry_key(plan@[w]) == k;
                    assert(dep_rewrite(m0[entry_key(plan@[w])], res, cl) == Some(plan@[w].3@));
                }
            }
        }
        assert(dep_paths(doc) =~= rewritten_paths(m0, res, cl));
    }
    proof {
        if plan@.len() > 0 {
            assert(rewrite_of_some(entries@, entries@.len() as int, plan@[0], log_map(resolutions@), views(closure_dirs@)));
            let t = choose|t: int| 0 <= t < entries@.len() && entry_key(plan@[0]) == entry_key(#[trigger] entries@[t])
                && dep_rewrite(entries@[t].3@, log_map(resolutions@), views(closure_dirs@)) == Some(plan@[0].3@);
            assert(m0.contains_key(entry_key(entries@[t])));
            assert(m0[entry_key(entries@[t])] == entries@[t].3@);
        }
        if exists|k: DepKey| #[trigger] m0.contains_key(k) && dep_rewrite(m0[k], log_map(resolutions@), views(closure_dirs@)) is Some {
            let k = choose|k: DepKey| #[trigger] m0.contains_key(k) && dep_rewrite(m0[k], log_map(resolutions@), views(closure_dirs@)) is Some;
            let t = choose|t: int| 0 <= t < entries@.len() && #[trigger] entry_key(entries@[t]) == k;
            assert(entries@[t].3@ == m0[k]);
            assert(entry_listed(plan@, 0, entry_key(entries@[t])));
        }
    }
    if plan.len() > 0 {
        let t = render_document(&doc);
        proof {
            assert(rewritten_document(manifest@, res, cl, doc));
        }
        Some(t)
    } else {
        None
    }
}

/// Some dependency has the path `p`.
pub open spec fn is_dep_path(m: Map<DepKey, Seq<char>>, p: Seq<char>) -> bool {
    exists|k: DepKey| #[trigger] m.contains_key(k) && m[k] == p
}

/// The `path` of every dependency of the manifest that declares one (empty
/// when the text does not parse): what the shadow needs resolved on disk.
pub fn dep_path_values(manifest: &str) -> (r: Vec<String>)
    ensures
        toml_parses(manifest@) ==> forall|k: DepKey| #[trigger] manifest_dep_paths(manifest@).contains_key(k) ==> views(r@).contains(
            manifest_dep_paths(manifest@)[k],
        ),
        toml_parses(manifest@) ==> forall|i: int| 0 <= i < r@.len() ==> is_dep_path(manifest_dep_paths(manifest@), #[trigger] r@[i]@),
        !toml_parses(manifest@) ==> r@.len() == 0,
{
    let doc = match parse_document(manifest) {
        Ok(d) => d,
        Err(_) => {
            return Vec::new();
        },
    };
    let entries = dep_entries(&doc);
    let mut r: Vec<String> = Vec::new();
    let mut i: usize = 0;
    while i < entries.len()
        invariant
            i <= entries@.len(),
            r@.len() == i,
            forall|j: int| 0 <= j < i ==> (#[trigger] r@[j])@ == entries@[j].3@,
        decreases entries@.len() - i,
    {
        r.push(entries[i].3.clone());
        i = i + 1;
    }
    proof {
        assert forall|k: DepKey| #[trigger] manifest_dep_paths(manifest@).contains_key(k) implies views(r@).contains(
            manifest_dep_paths(manifest@)[k],
        ) by {
            let t = choose|t: int| 0 <= t < entries@.len() && #[trigger] entry_key(entries@[t]) == k;
            assert(views(r@)[t] == r@[t]@);
        }
        assert forall|i: int| 0 <= i < r@.len() implies is_dep_path(manifest_dep_paths(manifest@), #[trigger] r@[i]@) by {
            let k = entry_key(entries@[i]);
            assert(manifest_dep_paths(manifest@).contains_key(k));
            assert(manifest_dep_paths(manifest@)[k] == entries@[i].3@);
            assert(r@[i]@ == entries@[i].3@);
        }
    }
    r
}

} // verus!
