//! What is done once at startup: the index entries, the first cursor, and a
//! look for settings of an older layout.

use crate::commands::compose::accounts_root;
use crate::commands::navigation::{page_cursor_path, path_to_value};
use crate::path::{leads, path2, path3, path4};
use crate::renderers::page_at;
use crate::renderers::route_laws::every_page_has_its_cursor;
use crate::snapshot::{
    find, lasting, untouched, writes_show_at_their_paths, written, EntryView, SettingsSnapshot,
    SnapshotView,
};
use crate::text::texts;
use crate::types::{BadgeSource, BadgeView, IndexEntryView, SettingsIndexEntry};
use crate::value::{put, put_path, write_at, writes_view, StoreValue, ValueView, Write, WriteView};
use vstd::prelude::*;
use vstd::string::*;

verus! {

/// The entry for the connections.
pub open spec fn accounts_entry() -> IndexEntryView {
    IndexEntryView {
        id: "accounts"@,
        label: "Accounts"@,
        description: "Manage accounts and API keys."@,
        target_cursor: seq!["settings"@, "accounts"@],
        badge: BadgeView::SubtreeCount(accounts_root()),
    }
}

/// The entry for the models.
pub open spec fn models_entry() -> IndexEntryView {
    IndexEntryView {
        id: "models"@,
        label: "Models"@,
        description: "Browse model catalogs and tag the bootstrap model."@,
        target_cursor: seq!["settings"@, "models"@],
        badge: BadgeView::BootstrapReference,
    }
}

/// The writes of the index entries.
pub open spec fn index_entry_writes() -> Seq<WriteView> {
    seq![
        put(
            seq!["settings"@, "index"@, "entries"@, "accounts"@],
            ValueView::IndexEntry(accounts_entry()),
        ),
        put(
            seq!["settings"@, "index"@, "entries"@, "models"@],
            ValueView::IndexEntry(models_entry()),
        ),
    ]
}

/// The writes of the index entries, whatever is there.
pub fn populate_index_entries() -> (r: Vec<Write>)
    ensures
        writes_view(r@) == index_entry_writes(),
{
    let accounts = SettingsIndexEntry {
        id: "accounts".to_owned(),
        label: "Accounts".to_owned(),
        description: "Manage accounts and API keys.".to_owned(),
        target_cursor: path2("settings", "accounts"),
        badge: BadgeSource::SubtreeCount(path3("config", "gate", "accounts")),
    };
    let models = SettingsIndexEntry {
        id: "models".to_owned(),
        label: "Models".to_owned(),
        description: "Browse model catalogs and tag the bootstrap model.".to_owned(),
        target_cursor: path2("settings", "models"),
        badge: BadgeSource::BootstrapReference,
    };
    let mut out: Vec<Write> = Vec::new();
    out.push(
        write_at(path4("settings", "index", "entries", "accounts"), StoreValue::IndexEntry(accounts)),
    );
    out.push(write_at(path4("settings", "index", "entries", "models"), StoreValue::IndexEntry(models)));
    proof {
        assert(writes_view(out@) =~= index_entry_writes());
    }
    out
}

/// Whether this is the first run: no cursor is stored, and nothing at or below
/// the accounts.
pub open spec fn first_run(s: SnapshotView) -> bool {
    s.at(page_cursor_path()) is None && !s.holds_below(accounts_root())
}

/// The write that puts the cursor at the prompt for a new account on the first
/// run; none otherwise.
pub fn maybe_first_run_cursor(data: &SettingsSnapshot) -> (r: Option<Write>)
    ensures
        r is Some <==> first_run(data@),
        r is Some ==> r->0@ == put_path(
            page_cursor_path(),
            seq!["settings"@, "accounts"@, "_new"@],
        ),
{
    if data.read(&path3("ui", "settings", "cursor")).is_some() {
        return None;
    }
    if data.has_below(&path3("config", "gate", "accounts")) {
        return None;
    }
    Some(
        write_at(
            path3("ui", "settings", "cursor"),
            path_to_value(&path3("settings", "accounts", "_new")),
        ),
    )
}

/// A TOML value as far as it matters here: a table by its keys, or something
/// else.
pub enum TomlNode {
    Table(Map<Seq<char>, TomlNode>),
    Other,
}

/// A table of the `toml` crate.
#[verifier::external_type_specification]
#[verifier::external_body]
#[verifier::reject_recursive_types(K)]
#[verifier::reject_recursive_types(V)]
pub struct ExTomlMap<K, V>(toml::map::Map<K, V>);

/// A value of the `toml` crate.
#[verifier::external_type_specification]
#[verifier::external_body]
pub struct ExTomlValue(toml::Value);

/// What a table holds, by key.
pub uninterp spec fn table_view(t: toml::Table) -> Map<Seq<char>, TomlNode>;

/// The table that a TOML document spells; `None` where it is not well formed.
pub uninterp spec fn parsed_toml(content: Seq<char>) -> Option<Map<Seq<char>, TomlNode>>;

/// Parses a document with `toml::Table`'s `FromStr`. Whether it succeeds, and
/// what the table holds, depends on the document alone and is named
/// `parsed_toml`.
#[verifier::external_body]
fn parse_toml(content: &str) -> (r: Option<toml::Table>)
    ensures
        r is Some <==> parsed_toml(content@) is Some,
        r is Some ==> table_view(r->0) == parsed_toml(content@)->0,
{
    content.parse::<toml::Table>().ok()
}

/// Calls `toml::Table::get`: the table under a key, where the key is there and
/// has a table.
#[verifier::external_body]
fn sub_table<'a>(t: &'a toml::Table, key: &str) -> (r: Option<&'a toml::Table>)
    ensures
        r is Some <==> has_table(table_view(*t), key@),
        r is Some ==> table_view(*r->0) == table_view(*t)[key@]->Table_0,
{
    match t.get(key) {
        Some(toml::Value::Table(inner)) => Some(inner),
        _ => None,
    }
}

/// Calls `toml::Table::contains_key`: whether the key is there.
#[verifier::external_body]
fn has_key(t: &toml::Table, key: &str) -> (r: bool)
    ensures
        r == table_view(*t).contains_key(key@),
{
    t.contains_key(key)
}

/// Calls `toml::Table::keys`: every key of the table, and no other.
#[verifier::external_body]
fn table_keys(t: &toml::Table) -> (r: Vec<String>)
    ensures
        forall|k: Seq<char>| #[trigger]
            texts(r@).contains(k) <==> table_view(*t).contains_key(k),
{
    t.keys().cloned().collect()
}

/// Whether `t` has a table under `key`.
pub open spec fn has_table(t: Map<Seq<char>, TomlNode>, key: Seq<char>) -> bool {
    t.contains_key(key) && t[key] is Table
}

/// Whether a `gate` table has the old defaults.
pub open spec fn has_defaults(gate: Map<Seq<char>, TomlNode>) -> bool {
    gate.contains_key("defaults"@)
}

/// Whether a `gate` table has a provider table with models in it.
pub open spec fn has_provider_models(gate: Map<Seq<char>, TomlNode>) -> bool {
    has_table(gate, "providers"@) && exists|name: Seq<char>| #[trigger]
        provider_has_models(gate["providers"@]->Table_0, name)
}

/// Whether one provider is a table with models in it.
pub open spec fn provider_has_models(
    providers: Map<Seq<char>, TomlNode>,
    name: Seq<char>,
) -> bool {
    has_table(providers, name) && providers[name]->Table_0.contains_key("models"@)
}

/// The old blocks in a document's table.
pub open spec fn legacy_blocks(table: Map<Seq<char>, TomlNode>) -> Seq<Seq<char>> {
    if has_table(table, "gate"@) {
        let gate = table["gate"@]->Table_0;
        let first = if has_defaults(gate) {
            seq!["gate/defaults"@]
        } else {
            Seq::empty()
        };
        if has_provider_models(gate) {
            first.push("gate/providers/*/models"@)
        } else {
            first
        }
    } else {
        Seq::empty()
    }
}

/// The old blocks in a configuration file; none where there is no file, or it is
/// not well formed.
pub open spec fn legacy_in(content: Option<Seq<char>>) -> Seq<Seq<char>> {
    match content {
        Some(c) => match parsed_toml(c) {
            Some(table) => legacy_blocks(table),
            None => Seq::empty(),
        },
        None => Seq::empty(),
    }
}

fn any_provider_has_models(providers: &toml::Table) -> (r: bool)
    ensures
        r <==> exists|name: Seq<char>| #[trigger]
            provider_has_models(table_view(*providers), name),
{
    let names: Vec<String> = table_keys(providers);
    let ghost all = texts(names@);
    let mut i: usize = 0;
    while i < names.len()
        invariant
            i <= names@.len(),
            all == texts(names@),
            forall|k: int|
                0 <= k < i ==> !provider_has_models(table_view(*providers), #[trigger] all[k]),
            forall|k: Seq<char>| #[trigger]
                all.contains(k) <==> table_view(*providers).contains_key(k),
        decreases names@.len() - i,
    {
        proof {
            assert(all[i as int] == names@[i as int]@);
        }
        match sub_table(providers, names[i].as_str()) {
            Some(prov) => {
                if has_key(prov, "models") {
                    proof {
                        assert(provider_has_models(table_view(*providers), all[i as int]));
                    }
                    return true;
                }
            },
            None => {},
        }
        i += 1;
    }
    proof {
        assert forall|name: Seq<char>| !(#[trigger] provider_has_models(
            table_view(*providers),
            name,
        )) by {
            if table_view(*providers).contains_key(name) {
                assert(all.contains(name));
                let k = choose|k: int| 0 <= k < all.len() && all[k] == name;
                assert(!provider_has_models(table_view(*providers), all[k]));
            }
        }
    }
    false
}

/// The characters of each name.
pub open spec fn names_text(v: Seq<&'static str>) -> Seq<Seq<char>> {
    Seq::new(v.len(), |i: int| v[i]@)
}

/// The old blocks in a parsed document's table.
pub fn legacy_in_table(table: &toml::Table) -> (r: Vec<&'static str>)
    ensures
        names_text(r@) == legacy_blocks(table_view(*table)),
{
    let mut detected: Vec<&'static str> = Vec::new();
    match sub_table(table, "gate") {
        Some(gate) => {
            if has_key(gate, "defaults") {
                detected.push("gate/defaults");
            }
            match sub_table(gate, "providers") {
                Some(providers) => {
                    if any_provider_has_models(providers) {
                        detected.push("gate/providers/*/models");
                    }
                },
                None => {},
            }
        },
        None => {},
    }
    proof {
        assert(names_text(detected@) =~= legacy_blocks(table_view(*table)));
    }
    detected
}

/// The old blocks in a configuration file, given its text if it could be read.
pub fn detect_legacy_settings(content: Option<&str>) -> (r: Vec<&'static str>)
    ensures
        names_text(r@) == legacy_in(
            match content {
                Some(c) => Some(c@),
                None => None,
            },
        ),
{
    let none: Vec<&'static str> = Vec::new();
    proof {
        assert(names_text(none@) =~= Seq::<Seq<char>>::empty());
    }
    match content {
        Some(c) => match parse_toml(c) {
            Some(table) => legacy_in_table(&table),
            None => none,
        },
        None => none,
    }
}

/// What is to be logged about a configuration file: the old blocks in it, where
/// there are any.
pub fn log_legacy_settings_if_present(content: Option<&str>) -> (r: Option<Vec<&'static str>>)
    ensures
        ({
            let found = legacy_in(
                match content {
                    Some(c) => Some(c@),
                    None => None,
                },
            );
            &&& r is Some <==> found.len() > 0
            &&& r is Some ==> names_text(r->0@) == found
        }),
{
    let detected: Vec<&'static str> = detect_legacy_settings(content);
    proof {
        assert(names_text(detected@).len() == detected@.len());
    }
    if detected.len() > 0 {
        Some(detected)
    } else {
        None
    }
}

/// The index lists the connections and the models: each entry leads to its page,
/// the connections count what is stored for them, and the models name the one
/// to start with. Nothing else in the store changes.
pub proof fn index_lists_connections_and_models(s: SnapshotView)
    ensures
        ({
            let t = written(s, index_entry_writes());
            let accounts = seq!["settings"@, "index"@, "entries"@, "accounts"@];
            let models = seq!["settings"@, "index"@, "entries"@, "models"@];
            let a = t.at(accounts);
            let m = t.at(models);
            &&& a is Some && a->0 is IndexEntry
            &&& a->0->IndexEntry_0.id == "accounts"@
            &&& a->0->IndexEntry_0.target_cursor == seq!["settings"@, "accounts"@]
            &&& page_at(a->0->IndexEntry_0.target_cursor) is Some
            &&& a->0->IndexEntry_0.badge == BadgeView::SubtreeCount(
                seq!["config"@, "gate"@, "accounts"@],
            )
            &&& m is Some && m->0 is IndexEntry
            &&& m->0->IndexEntry_0.id == "models"@
            &&& m->0->IndexEntry_0.target_cursor == seq!["settings"@, "models"@]
            &&& page_at(m->0->IndexEntry_0.target_cursor) is Some
            &&& m->0->IndexEntry_0.badge is BootstrapReference
            &&& forall|x: Seq<Seq<char>>|
                x != accounts && x != models ==> #[trigger] t.at(x) == s.at(x)
        }),
{
    let w = index_entry_writes();
    let accounts = seq!["settings"@, "index"@, "entries"@, "accounts"@];
    let models = seq!["settings"@, "index"@, "entries"@, "models"@];
    reveal_strlit("accounts");
    reveal_strlit("models");
    assert("accounts"@.len() == 8 && "models"@.len() == 6);
    assert(accounts[3] == "accounts"@ && models[3] == "models"@);
    assert(w[0].path == accounts && w[1].path == models);
    writes_show_at_their_paths(s, w);
    assert(lasting(w, 0));
    assert(lasting(w, 1));
    every_page_has_its_cursor();
    assert forall|x: Seq<Seq<char>>| x != accounts && x != models implies #[trigger] written(
        s,
        w,
    ).at(x) == s.at(x) by {
        assert(untouched(w, x));
    }
}

proof fn lemma_found_is_held(entries: Seq<EntryView>, p: Seq<Seq<char>>)
    requires
        find(entries, p) is Some,
    ensures
        exists|i: int| 0 <= i < entries.len() && (#[trigger] entries[i]).path == p,
    decreases entries.len(),
{
    if entries.len() > 0 && entries.last().path != p {
        lemma_found_is_held(entries.drop_last(), p);
        let i = choose|i: int|
            0 <= i < entries.drop_last().len() && (#[trigger] entries.drop_last()[i]).path == p;
        assert(entries[i].path == p);
    } else if entries.len() > 0 {
        assert(entries[entries.len() - 1].path == p);
    }
}

/// The first run is over once a cursor is stored, or anything for an account,
/// record or part of one; a store that holds nothing is on its first run.
pub proof fn first_run_is_before_anything_is_stored(s: SnapshotView, rest: Seq<Seq<char>>)
    ensures
        s.at(seq!["ui"@, "settings"@, "cursor"@]) is Some ==> !first_run(s),
        s.at(seq!["config"@, "gate"@, "accounts"@] + rest) is Some ==> !first_run(s),
        s.entries.len() == 0 ==> first_run(s),
{
    let root = seq!["config"@, "gate"@, "accounts"@];
    let p = root + rest;
    assert(root == accounts_root());
    if s.at(p) is Some {
        lemma_found_is_held(s.entries, p);
        assert(p.subrange(0, 3) =~= root);
        let i = choose|i: int| 0 <= i < s.entries.len() && (#[trigger] s.entries[i]).path == p;
        assert(leads(root, s.entries[i].path));
    }
}

/// An old block is reported where the document has it, and only there: the
/// defaults of its gate, and the models of any provider of its gate. Nothing
/// else is reported, and nothing twice.
pub proof fn old_blocks_are_reported_where_they_stand(
    table: Map<Seq<char>, TomlNode>,
    gate: Map<Seq<char>, TomlNode>,
    block: Seq<char>,
)
    requires
        table.contains_key("gate"@),
        table["gate"@] == TomlNode::Table(gate),
    ensures
        ({
            let found = legacy_blocks(table);
            &&& found.contains("gate/defaults"@) <==> gate.contains_key("defaults"@)
            &&& found.contains("gate/providers/*/models"@) <==> gate.contains_key("providers"@)
                && gate["providers"@] is Table && exists|name: Seq<char>|
                {
                    &&& #[trigger] gate["providers"@]->Table_0.contains_key(name)
                    &&& gate["providers"@]->Table_0[name] is Table
                    &&& gate["providers"@]->Table_0[name]->Table_0.contains_key("models"@)
                }
            &&& found.contains(block) ==> block == "gate/defaults"@ || block
                == "gate/providers/*/models"@
            &&& found.len() <= 2
            &&& found.no_duplicates()
        }),
{
    reveal_strlit("gate/defaults");
    reveal_strlit("gate/providers/*/models");
    assert("gate/defaults"@.len() == 13 && "gate/providers/*/models"@.len() == 23);
    let found = legacy_blocks(table);
    if has_defaults(gate) {
        assert(found[0] == "gate/defaults"@);
    }
    if has_provider_models(gate) {
        assert(found[found.len() - 1] == "gate/providers/*/models"@);
        let name = choose|name: Seq<char>| #[trigger]
            provider_has_models(gate["providers"@]->Table_0, name);
        assert(gate["providers"@]->Table_0.contains_key(name));
    }
    assert forall|name: Seq<char>|
        gate["providers"@] is Table && #[trigger] gate["providers"@]->Table_0.contains_key(name)
            && gate["providers"@]->Table_0[name] is Table
            && gate["providers"@]->Table_0[name]->Table_0.contains_key("models"@) implies
        provider_has_models(gate["providers"@]->Table_0, name) by {}
}

} // verus!
