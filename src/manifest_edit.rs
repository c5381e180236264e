//! Adding dependency declarations to a manifest document.

use vstd::prelude::*;
use crate::manifest::{ManifestDependencyConfig, ManifestDependencyOrigin};

verus! {

/// `toml_edit::InlineTable`, an inline table of a TOML document; opaque here, and described
/// by [`inline_table_entries`].
#[verifier::external_type_specification]
#[verifier::external_body]
pub struct ExInlineTable(toml_edit::InlineTable);

/// `toml_edit::Table`, a table of a TOML document; opaque here, and described by
/// [`table_declarations`] and [`holds_table`].
#[verifier::external_type_specification]
#[verifier::external_body]
pub struct ExTable(toml_edit::Table);

/// `toml_edit::DocumentMut`, an editable TOML document; opaque here.
#[verifier::external_type_specification]
#[verifier::external_body]
pub struct ExDocumentMut(toml_edit::DocumentMut);

/// `toml_edit::TomlError`, why a text is no TOML document; carried through as it is.
#[verifier::external_type_specification]
#[verifier::external_body]
pub struct ExTomlError(toml_edit::TomlError);

/// A value of a dependency declaration: a flag, a text, or a list of texts.
pub enum DeclarationValue {
    Flag(bool),
    Text(Seq<char>),
    List(Seq<Seq<char>>),
}

/// The entries of an inline table, in order: each key with its value, where a boolean is a
/// flag, a string a text, and an array of strings a list of texts.
pub uninterp spec fn inline_table_entries(t: toml_edit::InlineTable) -> Seq<(Seq<char>, DeclarationValue)>;

/// Some entry of `entries` has the key `key`.
pub open spec fn has_key(entries: Seq<(Seq<char>, DeclarationValue)>, key: Seq<char>) -> bool {
    exists|i: int| 0 <= i < entries.len() && (#[trigger] entries[i]).0 == key
}

/// The entries that declare where a dependency comes from.
pub open spec fn origin_entries(origin: ManifestDependencyOrigin) -> Seq<(Seq<char>, DeclarationValue)> {
    match origin {
        ManifestDependencyOrigin::Workspace => seq![("workspace"@, DeclarationValue::Flag(true))],
        ManifestDependencyOrigin::Git { url, branch } => seq![
            ("git"@, DeclarationValue::Text(url@)),
            ("branch"@, DeclarationValue::Text(branch@)),
        ],
        ManifestDependencyOrigin::CratesIO { version } => seq![
            ("version"@, DeclarationValue::Text(version@)),
        ],
        ManifestDependencyOrigin::Local { relative_path } => seq![
            ("path"@, DeclarationValue::Text(relative_path@)),
        ],
    }
}

/// The texts of a list of features.
pub open spec fn feature_texts(features: Seq<&str>) -> Seq<Seq<char>> {
    features.map_values(|f: &str| f@)
}

/// The entries of the inline table that declares a dependency: its origin, then
/// `default-features = false` when default features are off, the features when there are
/// any, and `optional = true` when the dependency is optional.
pub open spec fn declaration_entries(config: ManifestDependencyConfig) -> Seq<(Seq<char>, DeclarationValue)> {
    origin_entries(config.origin)
        + (if config.default_features {
            Seq::empty()
        } else {
            seq![("default-features"@, DeclarationValue::Flag(false))]
        })
        + (if config.features.len() == 0 {
            Seq::empty()
        } else {
            seq![("features"@, DeclarationValue::List(feature_texts(config.features@)))]
        })
        + (if config.optional {
            seq![("optional"@, DeclarationValue::Flag(true))]
        } else {
            Seq::empty()
        })
}

/// A value to insert into an inline table, borrowed from a dependency declaration.
enum ValueRef<'b> {
    Flag(bool),
    Text(&'b str),
    List(&'b Vec<&'b str>),
}

impl<'b> ValueRef<'b> {
    spec fn view(&self) -> DeclarationValue {
        match *self {
            ValueRef::Flag(b) => DeclarationValue::Flag(b),
            ValueRef::Text(s) => DeclarationValue::Text(s@),
            ValueRef::List(items) => DeclarationValue::List(feature_texts(items@)),
        }
    }
}

/// Relies on `toml_edit::InlineTable::new`: the new table has no entries.
#[verifier::external_body]
fn new_inline_table() -> (r: toml_edit::InlineTable)
    ensures
        inline_table_entries(r) == Seq::<(Seq<char>, DeclarationValue)>::empty(),
{
    toml_edit::InlineTable::new()
}

/// Relies on `toml_edit::InlineTable::insert`: a key that the table lacks is appended, with
/// its value, after the existing entries. A bool becomes a boolean, a text a string, and a
/// list of texts an array of strings.
#[verifier::external_body]
fn inline_insert(table: &mut toml_edit::InlineTable, key: &str, value: &ValueRef)
    requires
        !has_key(inline_table_entries(*old(table)), key@),
    ensures
        inline_table_entries(*final(table)) == inline_table_entries(*old(table)).push(
            (key@, value.view()),
        ),
{
    let value = match value {
        ValueRef::Flag(b) => toml_edit::Value::from(*b),
        ValueRef::Text(s) => toml_edit::Value::from(*s),
        ValueRef::List(items) => toml_edit::Value::Array(items.iter().copied().collect()),
    };
    table.insert(key, value);
}

/// The inline table that declares a dependency as `config` says.
pub fn dependency_declaration(config: &ManifestDependencyConfig) -> (r: toml_edit::InlineTable)
    ensures
        inline_table_entries(r) == declaration_entries(*config),
{
    proof {
        reveal_strlit("workspace");
        reveal_strlit("git");
        reveal_strlit("branch");
        reveal_strlit("version");
        reveal_strlit("path");
        reveal_strlit("default-features");
        reveal_strlit("features");
        reveal_strlit("optional");
        assert("git"@.len() == 3 && "branch"@.len() == 6);
        assert("workspace"@.len() == 9 && "version"@.len() == 7 && "path"@.len() == 4);
        assert("default-features"@.len() == 16);
        assert("features"@.len() == 8 && "optional"@.len() == 8);
        assert("features"@[0] != "optional"@[0]);
    }
    let mut table = new_inline_table();
    match &config.origin {
        ManifestDependencyOrigin::Workspace => {
            inline_insert(&mut table, "workspace", &ValueRef::Flag(true));
        },
        ManifestDependencyOrigin::Git { url, branch } => {
            inline_insert(&mut table, "git", &ValueRef::Text(url));
            inline_insert(&mut table, "branch", &ValueRef::Text(branch));
        },
        ManifestDependencyOrigin::CratesIO { version } => {
            inline_insert(&mut table, "version", &ValueRef::Text(version));
        },
        ManifestDependencyOrigin::Local { relative_path } => {
            inline_insert(&mut table, "path", &ValueRef::Text(relative_path));
        },
    }
    let ghost after_origin = inline_table_entries(table);
    assert(after_origin == origin_entries(config.origin));
    if !config.default_features {
        inline_insert(&mut table, "default-features", &ValueRef::Flag(false));
    }
    if config.features.len() > 0 {
        inline_insert(&mut table, "features", &ValueRef::List(&config.features));
    }
    if config.optional {
        inline_insert(&mut table, "optional", &ValueRef::Flag(true));
    }
    assert(inline_table_entries(table) =~= declaration_entries(*config));
    table
}

/// The keys, in order, of the table reached from `t` by following `path` key by key through
/// keys that hold tables (`t` itself for the empty path).
pub uninterp spec fn table_keys(t: toml_edit::Table, path: Seq<Seq<char>>) -> Seq<Seq<char>>;

/// The dependency declarations of the table reached from `t` by `path`: each of its keys
/// that holds an inline table, with the entries of that inline table.
pub uninterp spec fn table_declarations(t: toml_edit::Table, path: Seq<Seq<char>>) -> Map<
    Seq<char>,
    Seq<(Seq<char>, DeclarationValue)>,
>;

/// The keys of the table reached from `t` by `path` that hold an item other than a table
/// (a value, an inline table, an array of tables), each with the text that the item's
/// `Display` gives.
pub uninterp spec fn table_item_texts(t: toml_edit::Table, path: Seq<Seq<char>>) -> Map<
    Seq<char>,
    Seq<char>,
>;

/// Following the non-empty `path` from `t`, key by key, reaches a table (not an inline
/// table, nor a value of another kind).
pub uninterp spec fn holds_table(t: toml_edit::Table, path: Seq<Seq<char>>) -> bool;

/// `path` leads from `t` to a table: it is empty, or `t` holds a table there.
pub open spec fn is_table_at(t: toml_edit::Table, path: Seq<Seq<char>>) -> bool {
    path.len() == 0 || holds_table(t, path)
}

/// The table reached from `a` by `pa` and the one reached from `b` by `pb` are both there or
/// both missing, and when there have the same keys in the same order, the same
/// declarations and the same item texts.
pub open spec fn agree(
    a: toml_edit::Table,
    pa: Seq<Seq<char>>,
    b: toml_edit::Table,
    pb: Seq<Seq<char>>,
) -> bool {
    &&& is_table_at(a, pa) == is_table_at(b, pb)
    &&& is_table_at(a, pa) ==> table_keys(a, pa) == table_keys(b, pb) && table_declarations(
        a,
        pa,
    ) == table_declarations(b, pb) && table_item_texts(a, pa) == table_item_texts(b, pb)
}

/// The keys `keys` after `key` is set: unchanged when `key` is among them, else with `key`
/// appended.
pub open spec fn keys_with(keys: Seq<Seq<char>>, key: Seq<char>) -> Seq<Seq<char>> {
    if keys.contains(key) {
        keys
    } else {
        keys.push(key)
    }
}

/// Relies on `toml_edit::Table::new`: the new table has no entries.
#[verifier::external_body]
fn new_table() -> (r: toml_edit::Table)
    ensures
        table_keys(r, Seq::empty()) == Seq::<Seq<char>>::empty(),
        table_declarations(r, Seq::empty()).dom() == Set::<Seq<char>>::empty(),
        table_item_texts(r, Seq::empty()).dom() == Set::<Seq<char>>::empty(),
        forall|p: Seq<Seq<char>>| p.len() > 0 ==> !#[trigger] holds_table(r, p),
{
    toml_edit::Table::new()
}

/// Relies on `toml_edit::Table::insert` with `toml_edit::value`: `key` then holds the inline
/// table, in place of what it held before (at its place among the keys) or after the other
/// keys; the other keys keep what they hold.
#[verifier::external_body]
fn table_insert_declaration(table: &mut toml_edit::Table, key: &str, declaration: toml_edit::InlineTable)
    ensures
        table_keys(*final(table), Seq::empty()) == keys_with(
            table_keys(*old(table), Seq::empty()),
            key@,
        ),
        table_declarations(*final(table), Seq::empty()) == table_declarations(
            *old(table),
            Seq::empty(),
        ).insert(key@, inline_table_entries(declaration)),
        table_item_texts(*final(table), Seq::empty()).remove(key@) == table_item_texts(
            *old(table),
            Seq::empty(),
        ).remove(key@),
        table_item_texts(*final(table), Seq::empty()).contains_key(key@),
        forall|p: Seq<Seq<char>>|
            p.len() > 0 && p[0] != key@ ==> #[trigger] agree(*final(table), p, *old(table), p),
        forall|p: Seq<Seq<char>>|
            p.len() > 0 && p[0] == key@ ==> !#[trigger] holds_table(*final(table), p),
{
    table.insert(key, toml_edit::value(declaration));
}

/// Relies on `toml_edit::Table::insert`: `key` then holds the table `inner`, in place of
/// what it held before (at its place among the keys) or after the other keys; the other
/// keys keep what they hold.
#[verifier::external_body]
fn table_insert_table(table: &mut toml_edit::Table, key: &str, inner: toml_edit::Table)
    ensures
        table_keys(*final(table), Seq::empty()) == keys_with(
            table_keys(*old(table), Seq::empty()),
            key@,
        ),
        table_declarations(*final(table), Seq::empty()) == table_declarations(
            *old(table),
            Seq::empty(),
        ).remove(key@),
        table_item_texts(*final(table), Seq::empty()) == table_item_texts(
            *old(table),
            Seq::empty(),
        ).remove(key@),
        forall|q: Seq<Seq<char>>| #[trigger]
            agree(*final(table), seq![key@] + q, inner, q),
        forall|p: Seq<Seq<char>>|
            p.len() > 0 && p[0] != key@ ==> #[trigger] agree(*final(table), p, *old(table), p),
{
    table.insert(key, toml_edit::Item::Table(inner));
}

/// Relies on `toml_edit::Table::get`: the table that `key` holds, if it holds a table; when
/// it holds none, no path through `key` leads to a table.
#[verifier::external_body]
fn table_entry_as_table<'t>(table: &'t toml_edit::Table, key: &str) -> (r: Option<&'t toml_edit::Table>)
    ensures
        r is Some == holds_table(*table, seq![key@]),
        r is Some ==> forall|q: Seq<Seq<char>>| #[trigger]
            agree(*r->Some_0, q, *table, seq![key@] + q),
        r is None ==> forall|q: Seq<Seq<char>>| !#[trigger] holds_table(*table, seq![key@] + q),
{
    match table.get(key) {
        Some(toml_edit::Item::Table(inner)) => Some(inner),
        _ => None,
    }
}

/// Relies on `toml_edit::Table::get_mut`: the table that `key` holds, if it holds a table.
/// What is done to it is what the outer table then holds under `key`.
#[verifier::external_body]
fn table_entry_as_table_mut<'t>(table: &'t mut toml_edit::Table, key: &str) -> (r: Option<
    &'t mut toml_edit::Table,
>)
    ensures
        r is Some == holds_table(*old(table), seq![key@]),
        r is None ==> *final(table) == *old(table),
        r is Some ==> forall|q: Seq<Seq<char>>| #[trigger]
            agree(*r->Some_0, q, *old(table), seq![key@] + q),
        r is Some ==> table_keys(*final(table), Seq::empty()) == table_keys(
            *old(table),
            Seq::empty(),
        ),
        r is Some ==> table_declarations(*final(table), Seq::empty()) == table_declarations(
            *old(table),
            Seq::empty(),
        ),
        r is Some ==> table_item_texts(*final(table), Seq::empty()) == table_item_texts(
            *old(table),
            Seq::empty(),
        ),
        r is Some ==> forall|q: Seq<Seq<char>>| #[trigger]
            agree(*final(table), seq![key@] + q, *final(r->Some_0), q),
        r is Some ==> forall|p: Seq<Seq<char>>|
            p.len() > 0 && p[0] != key@ ==> #[trigger] agree(*final(table), p, *old(table), p),
{
    match table.get_mut(key) {
        Some(toml_edit::Item::Table(inner)) => Some(inner),
        _ => None,
    }
}

/// Declares, in `dependencies`, the dependency `dependency_name` as `dependency_config` says,
/// in place of what `dependency_name` held before; the other keys keep what they hold.
pub fn add_dependency_to_dependencies_table(
    dependencies: &mut toml_edit::Table,
    dependency_name: &str,
    dependency_config: &ManifestDependencyConfig,
)
    ensures
        table_keys(*final(dependencies), Seq::empty()) == keys_with(
            table_keys(*old(dependencies), Seq::empty()),
            dependency_name@,
        ),
        table_declarations(*final(dependencies), Seq::empty()) == table_declarations(
            *old(dependencies),
            Seq::empty(),
        ).insert(dependency_name@, declaration_entries(*dependency_config)),
        table_item_texts(*final(dependencies), Seq::empty()).remove(dependency_name@)
            == table_item_texts(*old(dependencies), Seq::empty()).remove(dependency_name@),
        table_item_texts(*final(dependencies), Seq::empty()).contains_key(dependency_name@),
        forall|p: Seq<Seq<char>>|
            p.len() > 0 && p[0] != dependency_name@ ==> #[trigger] agree(
                *final(dependencies),
                p,
                *old(dependencies),
                p,
            ),
        forall|p: Seq<Seq<char>>|
            p.len() > 0 && p[0] == dependency_name@ ==> !#[trigger] holds_table(
                *final(dependencies),
                p,
            ),
{
    let declaration = dependency_declaration(dependency_config);
    table_insert_declaration(dependencies, dependency_name, declaration);
}

/// Where a manifest receives a new dependency.
#[derive(Debug, Clone, Copy, PartialEq, Eq, Structural)]
pub enum DependencyPlacement {
    /// In the `dependencies` table of the manifest.
    Dependencies,
    /// In the `dependencies` table of the manifest's `workspace` table.
    WorkspaceDependencies,
    /// In a `dependencies` table added to the manifest's `workspace` table.
    NewWorkspaceDependencies,
    /// In a `dependencies` table added to the manifest.
    NewDependencies,
}

/// Where a dependency goes, given whether the manifest has a `dependencies` table, a
/// `workspace` table, and a `dependencies` table in its `workspace` table.
pub open spec fn placement_for(
    has_dependencies: bool,
    has_workspace: bool,
    workspace_has_dependencies: bool,
) -> DependencyPlacement {
    if has_dependencies {
        DependencyPlacement::Dependencies
    } else if has_workspace && workspace_has_dependencies {
        DependencyPlacement::WorkspaceDependencies
    } else if has_workspace {
        DependencyPlacement::NewWorkspaceDependencies
    } else {
        DependencyPlacement::NewDependencies
    }
}

/// Decides where a dependency goes: in the manifest's `dependencies` table when it has
/// one; otherwise, when it has a `workspace` table, in that table's `dependencies` table,
/// added when missing; otherwise in a `dependencies` table added to the manifest.
pub fn dependency_placement(
    has_dependencies: bool,
    has_workspace: bool,
    workspace_has_dependencies: bool,
) -> (r: DependencyPlacement)
    ensures
        r == placement_for(has_dependencies, has_workspace, workspace_has_dependencies),
{
    if has_dependencies {
        DependencyPlacement::Dependencies
    } else if has_workspace && workspace_has_dependencies {
        DependencyPlacement::WorkspaceDependencies
    } else if has_workspace {
        DependencyPlacement::NewWorkspaceDependencies
    } else {
        DependencyPlacement::NewDependencies
    }
}

/// The table at `path` in `new` is the one at `path` in `old` with `name` declared as
/// `entries`: after its other keys when it is new, in its place otherwise; all else under
/// `path` is as it was.
pub open spec fn declared_at(
    old: toml_edit::Table,
    new: toml_edit::Table,
    path: Seq<Seq<char>>,
    name: Seq<char>,
    entries: Seq<(Seq<char>, DeclarationValue)>,
) -> bool {
    &&& is_table_at(old, path)
    &&& is_table_at(new, path)
    &&& table_keys(new, path) == keys_with(table_keys(old, path), name)
    &&& table_declarations(new, path) == table_declarations(old, path).insert(name, entries)
    &&& table_item_texts(new, path).remove(name) == table_item_texts(old, path).remove(name)
    &&& table_item_texts(new, path).contains_key(name)
    &&& forall|q: Seq<Seq<char>>|
        q.len() > 0 && q[0] != name ==> #[trigger] agree(new, path + q, old, path + q)
}

/// The table at `path` in `new` holds exactly `name`, declared as `entries`.
pub open spec fn fresh_at(
    new: toml_edit::Table,
    path: Seq<Seq<char>>,
    name: Seq<char>,
    entries: Seq<(Seq<char>, DeclarationValue)>,
) -> bool {
    &&& is_table_at(new, path)
    &&& table_keys(new, path) == seq![name]
    &&& table_declarations(new, path) == map![name => entries]
    &&& table_item_texts(new, path).dom() == set![name]
    &&& forall|q: Seq<Seq<char>>| q.len() > 0 ==> !#[trigger] holds_table(new, path + q)
}

/// The table at `path` in `new` is the one at `path` in `old` with `key` now holding a table:
/// after its other keys when it is new, in its place otherwise; all else under `path`, but
/// what `key` holds, is as it was.
pub open spec fn gained_table(
    old: toml_edit::Table,
    new: toml_edit::Table,
    path: Seq<Seq<char>>,
    key: Seq<char>,
) -> bool {
    &&& is_table_at(old, path)
    &&& is_table_at(new, path)
    &&& table_keys(new, path) == keys_with(table_keys(old, path), key)
    &&& table_declarations(new, path) == table_declarations(old, path).remove(key)
    &&& table_item_texts(new, path) == table_item_texts(old, path).remove(key)
    &&& forall|q: Seq<Seq<char>>|
        q.len() > 0 && q[0] != key ==> #[trigger] agree(new, path + q, old, path + q)
}

/// The table at `path` in `new` is the one at `path` in `old`, but for what `key` holds.
pub open spec fn same_but_under(
    old: toml_edit::Table,
    new: toml_edit::Table,
    path: Seq<Seq<char>>,
    key: Seq<char>,
) -> bool {
    &&& is_table_at(old, path)
    &&& is_table_at(new, path)
    &&& table_keys(new, path) == table_keys(old, path)
    &&& table_declarations(new, path) == table_declarations(old, path)
    &&& table_item_texts(new, path) == table_item_texts(old, path)
    &&& forall|q: Seq<Seq<char>>|
        q.len() > 0 && q[0] != key ==> #[trigger] agree(new, path + q, old, path + q)
}

/// The root table `new` is the root table `old` with the dependency `name` declared as
/// `entries` where `placement` says; everything else is as it was.
pub open spec fn dependency_added(
    old: toml_edit::Table,
    new: toml_edit::Table,
    name: Seq<char>,
    entries: Seq<(Seq<char>, DeclarationValue)>,
    placement: DependencyPlacement,
) -> bool {
    let deps = "dependencies"@;
    let ws = "workspace"@;
    match placement {
        DependencyPlacement::Dependencies => {
            &&& same_but_under(old, new, Seq::empty(), deps)
            &&& declared_at(old, new, seq![deps], name, entries)
        },
        DependencyPlacement::WorkspaceDependencies => {
            &&& same_but_under(old, new, Seq::empty(), ws)
            &&& same_but_under(old, new, seq![ws], deps)
            &&& declared_at(old, new, seq![ws, deps], name, entries)
        },
        DependencyPlacement::NewWorkspaceDependencies => {
            &&& same_but_under(old, new, Seq::empty(), ws)
            &&& gained_table(old, new, seq![ws], deps)
            &&& fresh_at(new, seq![ws, deps], name, entries)
        },
        DependencyPlacement::NewDependencies => {
            &&& gained_table(old, new, Seq::empty(), deps)
            &&& fresh_at(new, seq![deps], name, entries)
        },
    }
}

/// What a borrow of the table under `key` gives: `t0` is what `root0` held there, and
/// `root1` holds `t1` there.
pub open spec fn borrowed_under(
    root0: toml_edit::Table,
    root1: toml_edit::Table,
    key: Seq<char>,
    t0: toml_edit::Table,
    t1: toml_edit::Table,
) -> bool {
    &&& forall|q: Seq<Seq<char>>| #[trigger] agree(t0, q, root0, seq![key] + q)
    &&& forall|q: Seq<Seq<char>>| #[trigger] agree(root1, seq![key] + q, t1, q)
}

proof fn lemma_path_assoc(key: Seq<char>, path: Seq<Seq<char>>, q: Seq<Seq<char>>)
    ensures
        (seq![key] + path) + q == seq![key] + (path + q),
        (seq![key] + path).len() > 0,
        (seq![key] + path)[0] == key,
{
    assert((seq![key] + path) + q =~= seq![key] + (path + q));
}

proof fn lemma_lift_declared_at(
    root0: toml_edit::Table,
    root1: toml_edit::Table,
    key: Seq<char>,
    t0: toml_edit::Table,
    t1: toml_edit::Table,
    path: Seq<Seq<char>>,
    name: Seq<char>,
    entries: Seq<(Seq<char>, DeclarationValue)>,
)
    requires
        borrowed_under(root0, root1, key, t0, t1),
        declared_at(t0, t1, path, name, entries),
    ensures
        declared_at(root0, root1, seq![key] + path, name, entries),
{
    assert(agree(t0, path, root0, seq![key] + path));
    assert(agree(root1, seq![key] + path, t1, path));
    lemma_path_assoc(key, path, Seq::empty());
    assert forall|q: Seq<Seq<char>>|
        q.len() > 0 && q[0] != name implies #[trigger] agree(
        root1,
        (seq![key] + path) + q,
        root0,
        (seq![key] + path) + q,
    ) by {
        lemma_path_assoc(key, path, q);
        assert(agree(root1, seq![key] + (path + q), t1, path + q));
        assert(agree(t1, path + q, t0, path + q));
        assert(agree(t0, path + q, root0, seq![key] + (path + q)));
    }
}

proof fn lemma_lift_same_but_under(
    root0: toml_edit::Table,
    root1: toml_edit::Table,
    key: Seq<char>,
    t0: toml_edit::Table,
    t1: toml_edit::Table,
    path: Seq<Seq<char>>,
    under: Seq<char>,
)
    requires
        borrowed_under(root0, root1, key, t0, t1),
        same_but_under(t0, t1, path, under),
    ensures
        same_but_under(root0, root1, seq![key] + path, under),
{
    assert(agree(t0, path, root0, seq![key] + path));
    assert(agree(root1, seq![key] + path, t1, path));
    lemma_path_assoc(key, path, Seq::empty());
    assert forall|q: Seq<Seq<char>>|
        q.len() > 0 && q[0] != under implies #[trigger] agree(
        root1,
        (seq![key] + path) + q,
        root0,
        (seq![key] + path) + q,
    ) by {
        lemma_path_assoc(key, path, q);
        assert(agree(root1, seq![key] + (path + q), t1, path + q));
        assert(agree(t1, path + q, t0, path + q));
        assert(agree(t0, path + q, root0, seq![key] + (path + q)));
    }
}

proof fn lemma_lift_gained_table(
    root0: toml_edit::Table,
    root1: toml_edit::Table,
    key: Seq<char>,
    t0: toml_edit::Table,
    t1: toml_edit::Table,
    path: Seq<Seq<char>>,
    gained: Seq<char>,
)
    requires
        borrowed_under(root0, root1, key, t0, t1),
        gained_table(t0, t1, path, gained),
    ensures
        gained_table(root0, root1, seq![key] + path, gained),
{
    assert(agree(t0, path, root0, seq![key] + path));
    assert(agree(root1, seq![key] + path, t1, path));
    lemma_path_assoc(key, path, Seq::empty());
    assert forall|q: Seq<Seq<char>>|
        q.len() > 0 && q[0] != gained implies #[trigger] agree(
        root1,
        (seq![key] + path) + q,
        root0,
        (seq![key] + path) + q,
    ) by {
        lemma_path_assoc(key, path, q);
        assert(agree(root1, seq![key] + (path + q), t1, path + q));
        assert(agree(t1, path + q, t0, path + q));
        assert(agree(t0, path + q, root0, seq![key] + (path + q)));
    }
}

proof fn lemma_lift_fresh_at(
    root1: toml_edit::Table,
    key: Seq<char>,
    t1: toml_edit::Table,
    path: Seq<Seq<char>>,
    name: Seq<char>,
    entries: Seq<(Seq<char>, DeclarationValue)>,
)
    requires
        forall|q: Seq<Seq<char>>| #[trigger] agree(root1, seq![key] + q, t1, q),
        fresh_at(t1, path, name, entries),
    ensures
        fresh_at(root1, seq![key] + path, name, entries),
{
    assert(agree(root1, seq![key] + path, t1, path));
    lemma_path_assoc(key, path, Seq::empty());
    assert forall|q: Seq<Seq<char>>| q.len() > 0 implies !#[trigger] holds_table(
        root1,
        (seq![key] + path) + q,
    ) by {
        lemma_path_assoc(key, path, q);
        assert(agree(root1, seq![key] + (path + q), t1, path + q));
        assert(!holds_table(t1, path + q));
    }
}

/// After a borrow under `key` that left the root's own keys and declarations as they were,
/// the root is as it was but for what `key` holds.
proof fn lemma_root_same_but_under(root0: toml_edit::Table, root1: toml_edit::Table, key: Seq<char>)
    requires
        table_keys(root1, Seq::empty()) == table_keys(root0, Seq::empty()),
        table_declarations(root1, Seq::empty()) == table_declarations(root0, Seq::empty()),
        table_item_texts(root1, Seq::empty()) == table_item_texts(root0, Seq::empty()),
        forall|p: Seq<Seq<char>>|
            p.len() > 0 && p[0] != key ==> #[trigger] agree(root1, p, root0, p),
    ensures
        same_but_under(root0, root1, Seq::empty(), key),
{
    assert forall|q: Seq<Seq<char>>|
        q.len() > 0 && q[0] != key implies #[trigger] agree(
        root1,
        Seq::<Seq<char>>::empty() + q,
        root0,
        Seq::<Seq<char>>::empty() + q,
    ) by {
        assert(Seq::<Seq<char>>::empty() + q =~= q);
        assert(agree(root1, q, root0, q));
    }
}

/// What [`add_dependency_to_dependencies_table`] states, read as [`declared_at`] the top of
/// the table.
proof fn lemma_declared_at_top(
    t0: toml_edit::Table,
    t1: toml_edit::Table,
    name: Seq<char>,
    entries: Seq<(Seq<char>, DeclarationValue)>,
)
    requires
        table_keys(t1, Seq::empty()) == keys_with(table_keys(t0, Seq::empty()), name),
        table_declarations(t1, Seq::empty()) == table_declarations(t0, Seq::empty()).insert(
            name,
            entries,
        ),
        table_item_texts(t1, Seq::empty()).remove(name) == table_item_texts(
            t0,
            Seq::empty(),
        ).remove(name),
        table_item_texts(t1, Seq::empty()).contains_key(name),
        forall|p: Seq<Seq<char>>| p.len() > 0 && p[0] != name ==> #[trigger] agree(t1, p, t0, p),
    ensures
        declared_at(t0, t1, Seq::empty(), name, entries),
{
    assert forall|q: Seq<Seq<char>>|
        q.len() > 0 && q[0] != name implies #[trigger] agree(
        t1,
        Seq::<Seq<char>>::empty() + q,
        t0,
        Seq::<Seq<char>>::empty() + q,
    ) by {
        assert(Seq::<Seq<char>>::empty() + q =~= q);
        assert(agree(t1, q, t0, q));
    }
}

/// What inserting a table under `key` states, read as [`gained_table`] at the top of the
/// table.
proof fn lemma_gained_by_insert(t0: toml_edit::Table, t1: toml_edit::Table, key: Seq<char>)
    requires
        table_keys(t1, Seq::empty()) == keys_with(table_keys(t0, Seq::empty()), key),
        table_declarations(t1, Seq::empty()) == table_declarations(t0, Seq::empty()).remove(key),
        table_item_texts(t1, Seq::empty()) == table_item_texts(t0, Seq::empty()).remove(key),
        forall|p: Seq<Seq<char>>| p.len() > 0 && p[0] != key ==> #[trigger] agree(t1, p, t0, p),
    ensures
        gained_table(t0, t1, Seq::empty(), key),
{
    assert forall|q: Seq<Seq<char>>|
        q.len() > 0 && q[0] != key implies #[trigger] agree(
        t1,
        Seq::<Seq<char>>::empty() + q,
        t0,
        Seq::<Seq<char>>::empty() + q,
    ) by {
        assert(Seq::<Seq<char>>::empty() + q =~= q);
        assert(agree(t1, q, t0, q));
    }
}

/// A table built anew with only `name` declared as `entries`.
fn new_dependencies_table(dependency_name: &str, dependency_config: &ManifestDependencyConfig) -> (r:
    toml_edit::Table)
    ensures
        fresh_at(r, Seq::empty(), dependency_name@, declaration_entries(*dependency_config)),
{
    let mut table = new_table();
    let ghost t0 = table;
    add_dependency_to_dependencies_table(&mut table, dependency_name, dependency_config);
    proof {
        let name = dependency_name@;
        assert(table_keys(t0, Seq::empty()) =~= Seq::<Seq<char>>::empty());
        assert(table_keys(table, Seq::empty()) =~= seq![name]);
        assert(table_declarations(table, Seq::empty()) =~= map![name => declaration_entries(*dependency_config)]);
        assert(table_item_texts(table, Seq::empty()).remove(name).dom() =~= Set::<Seq<char>>::empty());
        assert(table_item_texts(table, Seq::empty()).dom() =~= set![name]);
        assert forall|q: Seq<Seq<char>>| q.len() > 0 implies !#[trigger] holds_table(
            table,
            Seq::<Seq<char>>::empty() + q,
        ) by {
            assert(Seq::<Seq<char>>::empty() + q =~= q);
            if q[0] != name {
                assert(agree(table, q, t0, q));
                assert(!holds_table(t0, q));
            } else {
                assert(!holds_table(table, q));
            }
        }
    }
    table
}

/// Declares the dependency `dependency_name` in the root table `root` of a manifest, where
/// [`dependency_placement`] says, and returns that placement; everything else in `root`
/// is as it was.
pub fn add_crate_to_root_table(
    root: &mut toml_edit::Table,
    dependency_name: &str,
    dependency_config: &ManifestDependencyConfig,
) -> (r: DependencyPlacement)
    ensures
        r == placement_in(*old(root)),
        dependency_added(
            *old(root),
            *final(root),
            dependency_name@,
            declaration_entries(*dependency_config),
            r,
        ),
{
    let ghost root0 = *root;
    let ghost name = dependency_name@;
    let ghost entries = declaration_entries(*dependency_config);
    let ghost deps = "dependencies"@;
    let ghost ws = "workspace"@;
    let has_dependencies = table_entry_as_table(root, "dependencies").is_some();
    let (has_workspace, workspace_has_dependencies) = match table_entry_as_table(root, "workspace") {
        Some(workspace) => {
            let inner = table_entry_as_table(workspace, "dependencies").is_some();
            proof {
                assert(agree(*workspace, seq![deps], root0, seq![ws] + seq![deps]));
                assert(seq![ws] + seq![deps] =~= seq![ws, deps]);
            }
            (true, inner)
        },
        None => (false, false),
    };
    proof {
        if !has_workspace {
            assert(!holds_table(root0, seq![ws] + seq![deps]));
            assert(seq![ws] + seq![deps] =~= seq![ws, deps]);
        }
    }
    let placement = dependency_placement(
        has_dependencies,
        has_workspace,
        workspace_has_dependencies,
    );
    let ghost empty = Seq::<Seq<char>>::empty();
    proof {
        assert(seq![deps] + empty =~= seq![deps]);
        assert(seq![ws] + empty =~= seq![ws]);
        assert(seq![ws] + seq![deps] =~= seq![ws, deps]);
    }
    let ghost mut t0 = *root;
    let ghost mut t1 = *root;
    let ghost mut w0 = *root;
    let ghost mut w1 = *root;
    match placement {
        DependencyPlacement::Dependencies => {
            if let Some(dependencies) = table_entry_as_table_mut(root, "dependencies") {
                proof {
                    t0 = *dependencies;
                }
                add_dependency_to_dependencies_table(dependencies, dependency_name, dependency_config);
                proof {
                    t1 = *dependencies;
                }
            }
            proof {
                lemma_root_same_but_under(root0, *root, deps);
                lemma_declared_at_top(t0, t1, name, entries);
                lemma_lift_declared_at(root0, *root, deps, t0, t1, empty, name, entries);
            }
        },
        DependencyPlacement::WorkspaceDependencies => {
            if let Some(workspace) = table_entry_as_table_mut(root, "workspace") {
                proof {
                    w0 = *workspace;
                    assert(agree(w0, seq![deps], root0, seq![ws] + seq![deps]));
                }
                if let Some(dependencies) = table_entry_as_table_mut(workspace, "dependencies") {
                    proof {
                        t0 = *dependencies;
                    }
                    add_dependency_to_dependencies_table(
                        dependencies,
                        dependency_name,
                        dependency_config,
                    );
                    proof {
                        t1 = *dependencies;
                    }
                }
                proof {
                    w1 = *workspace;
                    lemma_root_same_but_under(w0, w1, deps);
                    lemma_declared_at_top(t0, t1, name, entries);
                    lemma_lift_declared_at(w0, w1, deps, t0, t1, empty, name, entries);
                }
            }
            proof {
                lemma_root_same_but_under(root0, *root, ws);
                lemma_lift_same_but_under(root0, *root, ws, w0, w1, empty, deps);
                lemma_lift_declared_at(root0, *root, ws, w0, w1, seq![deps], name, entries);
            }
        },
        DependencyPlacement::NewWorkspaceDependencies => {
            if let Some(workspace) = table_entry_as_table_mut(root, "workspace") {
                proof {
                    w0 = *workspace;
                }
                let dependencies = new_dependencies_table(dependency_name, dependency_config);
                proof {
                    t1 = dependencies;
                }
                table_insert_table(workspace, "dependencies", dependencies);
                proof {
                    w1 = *workspace;
                    lemma_gained_by_insert(w0, w1, deps);
                    lemma_lift_fresh_at(w1, deps, t1, empty, name, entries);
                }
            }
            proof {
                lemma_root_same_but_under(root0, *root, ws);
                lemma_lift_gained_table(root0, *root, ws, w0, w1, empty, deps);
                lemma_lift_fresh_at(*root, ws, w1, seq![deps], name, entries);
            }
        },
        DependencyPlacement::NewDependencies => {
            let dependencies = new_dependencies_table(dependency_name, dependency_config);
            proof {
                t1 = dependencies;
            }
            table_insert_table(root, "dependencies", dependencies);
            proof {
                lemma_gained_by_insert(root0, *root, deps);
                lemma_lift_fresh_at(*root, deps, t1, empty, name, entries);
            }
        },
    }
    placement
}

/// The root item of the document `d` is a table.
pub uninterp spec fn root_is_table(d: toml_edit::DocumentMut) -> bool;

/// The root table of the document `d`, where its root item is a table.
pub uninterp spec fn root_of(d: toml_edit::DocumentMut) -> toml_edit::Table;

/// Following the non-empty `path` from the root table of the TOML text `text` reaches a
/// table.
pub uninterp spec fn parsed_holds_table(text: Seq<char>, path: Seq<Seq<char>>) -> bool;

/// The keys, in order, of the table at `path` in the TOML text `text`.
pub uninterp spec fn parsed_keys(text: Seq<char>, path: Seq<Seq<char>>) -> Seq<Seq<char>>;

/// The dependency declarations of the table at `path` in the TOML text `text`, as
/// [`table_declarations`] reads them.
pub uninterp spec fn parsed_declarations(text: Seq<char>, path: Seq<Seq<char>>) -> Map<
    Seq<char>,
    Seq<(Seq<char>, DeclarationValue)>,
>;

/// The item texts of the table at `path` in the TOML text `text`, as [`table_item_texts`]
/// reads them.
pub uninterp spec fn parsed_item_texts(text: Seq<char>, path: Seq<Seq<char>>) -> Map<
    Seq<char>,
    Seq<char>,
>;

/// The table `t` reads, at `path`, as the TOML text `text` does at `path`.
pub open spec fn reads_as_text(t: toml_edit::Table, path: Seq<Seq<char>>, text: Seq<char>) -> bool {
    &&& is_table_at(t, path) == (path.len() == 0 || parsed_holds_table(text, path))
    &&& is_table_at(t, path) ==> {
        &&& table_keys(t, path) == parsed_keys(text, path)
        &&& table_declarations(t, path) == parsed_declarations(text, path)
        &&& table_item_texts(t, path) == parsed_item_texts(text, path)
    }
}

/// The text of the document `d`.
pub uninterp spec fn rendering(d: toml_edit::DocumentMut) -> Seq<char>;

/// `text` is a TOML document.
pub uninterp spec fn is_toml_document(text: Seq<char>) -> bool;

/// Relies on `toml_edit::DocumentMut::as_item_mut` and `toml_edit::Item::as_table_mut`: the
/// root table of the document, if its root item is a table. What is done to it is what the
/// document then holds as its root.
#[verifier::external_body]
fn root_table_mut(doc: &mut toml_edit::DocumentMut) -> (r: Option<&mut toml_edit::Table>)
    ensures
        r is Some == root_is_table(*old(doc)),
        r is None ==> *final(doc) == *old(doc),
        r is Some ==> *r->Some_0 == root_of(*old(doc)),
        r is Some ==> root_is_table(*final(doc)) && root_of(*final(doc)) == *final(r->Some_0),
{
    doc.as_item_mut().as_table_mut()
}

/// Relies on `toml_edit::DocumentMut`'s `FromStr`: the document that `text` holds, or why it
/// holds none; which of the two, and what the document's tables hold, depend on the text
/// alone. A parsed document's root item is a table.
#[verifier::external_body]
fn parse_document(text: &str) -> (r: Result<toml_edit::DocumentMut, toml_edit::TomlError>)
    ensures
        r is Ok == is_toml_document(text@),
        r is Ok ==> root_is_table(r->Ok_0),
        r is Ok ==> forall|p: Seq<Seq<char>>|
            #[trigger] is_table_at(root_of(r->Ok_0), p) == (p.len() == 0 || parsed_holds_table(
                text@,
                p,
            )),
        r is Ok ==> forall|p: Seq<Seq<char>>|
            is_table_at(root_of(r->Ok_0), p) ==> #[trigger] table_keys(root_of(r->Ok_0), p)
                == parsed_keys(text@, p),
        r is Ok ==> forall|p: Seq<Seq<char>>|
            is_table_at(root_of(r->Ok_0), p) ==> #[trigger] table_declarations(
                root_of(r->Ok_0),
                p,
            ) == parsed_declarations(text@, p),
        r is Ok ==> forall|p: Seq<Seq<char>>|
            is_table_at(root_of(r->Ok_0), p) ==> #[trigger] table_item_texts(root_of(r->Ok_0), p)
                == parsed_item_texts(text@, p),
{
    text.parse::<toml_edit::DocumentMut>()
}

/// Relies on `toml_edit::DocumentMut`'s `Display`: the text of the document.
#[verifier::external_body]
fn document_text(doc: &toml_edit::DocumentMut) -> (r: String)
    requires
        root_is_table(*doc),
    ensures
        r@ == rendering(*doc),
{
    doc.to_string()
}

/// Where a dependency goes in the root table `root`, as [`placement_for`] decides it from
/// the tables present.
pub open spec fn placement_in(root: toml_edit::Table) -> DependencyPlacement {
    placement_for(
        holds_table(root, seq!["dependencies"@]),
        holds_table(root, seq!["workspace"@]),
        holds_table(root, seq!["workspace"@, "dependencies"@]),
    )
}

/// Declares the dependency `dependency_name` in a manifest document whose root item is a
/// table, as [`add_crate_to_root_table`] does, and returns the placement; a document whose
/// root item is no table is left as it is, and `None` returned.
pub fn add_crate_to_dependencies_document(
    doc: &mut toml_edit::DocumentMut,
    dependency_name: &str,
    dependency_config: &ManifestDependencyConfig,
) -> (r: Option<DependencyPlacement>)
    ensures
        r is Some == root_is_table(*old(doc)),
        r is None ==> *final(doc) == *old(doc),
        r is Some ==> root_is_table(*final(doc)),
        r is Some ==> r->Some_0 == placement_in(root_of(*old(doc))),
        r is Some ==> dependency_added(
            root_of(*old(doc)),
            root_of(*final(doc)),
            dependency_name@,
            declaration_entries(*dependency_config),
            r->Some_0,
        ),
{
    match root_table_mut(doc) {
        Some(root) => Some(add_crate_to_root_table(root, dependency_name, dependency_config)),
        None => None,
    }
}

/// The text of the manifest `manifest` with the dependency `dependency_name` declared where
/// [`placement_in`] says for the manifest's root table, or why `manifest` is no TOML
/// document. The text is that of a document whose root table is the one `manifest` reads
/// as, with the dependency added and all else as it was.
pub fn add_crate_to_manifest_text(
    manifest: &str,
    dependency_name: &str,
    dependency_config: &ManifestDependencyConfig,
) -> (r: Result<String, toml_edit::TomlError>)
    ensures
        r is Ok == is_toml_document(manifest@),
        r is Ok ==> exists|before: toml_edit::Table, d: toml_edit::DocumentMut|
            (forall|p: Seq<Seq<char>>| #[trigger] reads_as_text(before, p, manifest@)) && r->Ok_0@
                == rendering(d) && root_is_table(d) && dependency_added(
                before,
                root_of(d),
                dependency_name@,
                declaration_entries(*dependency_config),
                placement_in(before),
            ),
{
    let mut doc = match parse_document(manifest) {
        Ok(doc) => doc,
        Err(e) => {
            return Err(e);
        },
    };
    let ghost before = root_of(doc);
    let _ = add_crate_to_dependencies_document(&mut doc, dependency_name, dependency_config);
    let text = document_text(&doc);
    proof {
        assert forall|p: Seq<Seq<char>>| #[trigger] reads_as_text(before, p, manifest@) by {
            assert(is_table_at(before, p) == (p.len() == 0 || parsed_holds_table(manifest@, p)));
            if is_table_at(before, p) {
                assert(table_keys(before, p) == parsed_keys(manifest@, p));
                assert(table_declarations(before, p) == parsed_declarations(manifest@, p));
                assert(table_item_texts(before, p) == parsed_item_texts(manifest@, p));
            }
        }
        assert(rendering(doc) == text@ && root_is_table(doc));
    }
    Ok(text)
}

} // verus!
