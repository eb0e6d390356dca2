use ox_settings::path::{continues_identifier, starts_identifier, valid_component, Path};
use ox_settings::visible_rows::safe_component;

fn path(parts: &[&str]) -> Path {
    Path { components: parts.iter().map(|s| s.to_string()).collect() }
}

#[test]
fn components_are_identifiers_or_numbers() {
    for ok in ["a", "settings", "_edit", "a1", "0", "12", "café", "名前", "__"] {
        assert!(valid_component(ok), "{ok:?}");
    }
    for bad in ["", "_", "1a", "a-b", "a b", "a/b", "a.b", "-"] {
        assert!(!valid_component(bad), "{bad:?}");
    }
}

#[test]
fn identifiers_follow_unicode() {
    for c in ['a', 'Z', '_', '0', '-', ' ', 'é', '名', '\u{0301}', '·', '€'] {
        assert_eq!(starts_identifier(c), unicode_ident::is_xid_start(c), "{c:?}");
        assert_eq!(continues_identifier(c), unicode_ident::is_xid_continue(c), "{c:?}");
    }
}

#[test]
fn texts_spell_paths() {
    assert_eq!(Path::parse("settings/accounts"), Some(path(&["settings", "accounts"])));
    assert_eq!(Path::parse("/settings//accounts/"), Some(path(&["settings", "accounts"])));
    assert_eq!(Path::parse(""), Some(path(&[])));
    assert_eq!(Path::parse("settings/a-b"), None);
}

#[test]
fn path_texts_read_back() {
    for p in [path(&[]), path(&["a"]), path(&["settings", "_edit"]), path(&["a", "0", "b"])] {
        assert_eq!(Path::parse(&p.to_text()), Some(p));
    }
}

#[test]
fn different_paths_have_different_texts() {
    assert_ne!(path(&["a", "b"]).to_text(), path(&["ab"]).to_text());
    assert_eq!(path(&["a", "b"]).to_text(), "a/b");
}

#[test]
fn paths_are_built_from_valid_components_only() {
    assert_eq!(
        Path::from_components(vec!["a".to_string(), "b".to_string()]),
        Some(path(&["a", "b"]))
    );
    assert_eq!(Path::from_components(vec!["a b".to_string()]), None);
}

#[test]
fn prefixes_match_whole_components() {
    let p = path(&["settings", "accounts", "alpha"]);
    assert!(p.starts_with(&path(&[])));
    assert!(p.starts_with(&path(&["settings", "accounts"])));
    assert!(p.starts_with(&p));
    assert!(!p.starts_with(&path(&["settings", "acc"])));
    assert!(!path(&["settings"]).starts_with(&p));
    assert_eq!(p.leading(2), path(&["settings", "accounts"]));
    assert_eq!(path(&["settings"]).child("accounts"), path(&["settings", "accounts"]));
}

#[test]
fn unsafe_characters_become_underscores() {
    assert_eq!(safe_component("gpt-4o.mini"), "gpt_4o_mini");
    assert_eq!(safe_component("plain"), "plain");
    assert_eq!(safe_component("a/b c"), "a_b_c");
    assert_eq!(safe_component(""), "__");
    assert_eq!(safe_component("4o-mini"), "_4o_mini");
    assert_eq!(safe_component("12"), "12");
}
