use ox_settings::bindings::{no_mods, register, shift_only};
use ox_settings::keys::{
    cmd, BindingScope, CommandId, KeyChord, KeyCodeRepr, KeyModifierSet, Phase, ScopedBinding,
};
use ox_settings::path::Path;
use ox_settings::scopes::ScopeRegistry;

fn path(parts: &[&str]) -> Path {
    Path { components: parts.iter().map(|s| s.to_string()).collect() }
}

fn populated() -> ScopeRegistry {
    let mut reg = ScopeRegistry::new();
    register(&mut reg);
    reg
}

fn key(modifiers: KeyModifierSet, code: KeyCodeRepr) -> KeyChord {
    KeyChord { modifiers, code }
}

#[test]
fn index_j_resolves_to_tree_next() {
    // Page-cursor `j` declares `Phase::Bubble` — it's an outer-scope
    // default that fires only when no inner widget claims the key.
    // Scope is `Exact(settings)` — the common ancestor of every
    // cursor on the settings screen — so the dispatcher's Bubble
    // walk reaches it from any focused-row cursor.
    let reg = populated();
    let hit = reg
        .lookup(
            &path(&["settings"]),
            &key(no_mods(), KeyCodeRepr::Char('j')),
            Phase::Bubble,
        )
        .expect("should match");
    assert_eq!(hit, &cmd("tree.next"));
}

#[test]
fn index_enter_resolves_to_tree_activate() {
    let reg = populated();
    let hit = reg
        .lookup(
            &path(&["settings"]),
            &key(no_mods(), KeyCodeRepr::Enter),
            Phase::Bubble,
        )
        .expect("should match");
    assert_eq!(hit, &cmd("tree.activate"));
}

#[test]
fn index_esc_resolves_to_tree_collapse_or_ascend() {
    let reg = populated();
    let hit = reg
        .lookup(
            &path(&["settings"]),
            &key(no_mods(), KeyCodeRepr::Esc),
            Phase::Bubble,
        )
        .expect("should match");
    assert_eq!(hit, &cmd("tree.collapse_or_ascend"));
}

#[test]
fn q_at_any_settings_focus_resolves_to_nav_exit_screen() {
    // `q` is the unconditional exit-screen escape hatch. It must
    // fire from any focus under `settings/*` — page level, account
    // row, account field, compose form, edit buffer — so the user
    // can always get out without walking the ascend ladder.
    let reg = populated();
    for scope in [
        path(&["settings"]),
        path(&["settings", "accounts"]),
        path(&["settings", "accounts", "alpha"]),
        path(&["settings", "accounts", "alpha", "endpoint"]),
        path(&["settings", "_compose_form", "name"]),
    ] {
        let hit = reg
            .lookup(
                &scope,
                &key(no_mods(), KeyCodeRepr::Char('q')),
                Phase::Bubble,
            )
            .unwrap_or_else(|| panic!("q must resolve at {scope:?}"));
        assert_eq!(hit, &cmd("nav.exit_screen"));
    }
}

#[test]
fn accounts_a_resolves_to_accounts_compose_open() {
    // Focused-row prefix bindings declare `Phase::Bubble`.
    let reg = populated();
    let hit = reg
        .lookup(
            &path(&["settings", "accounts"]),
            &key(no_mods(), KeyCodeRepr::Char('a')),
            Phase::Bubble,
        )
        .expect("should match");
    assert_eq!(hit, &cmd("accounts.compose.open"));
}

#[test]
fn focused_account_row_t_resolves_to_account_test() {
    // Per-row prefix binding: `t` fires whenever the cursor sits
    // under `settings/accounts`, including the account leaf row
    // — no page-flip required. Bubble phase — outer-scope default.
    let reg = populated();
    let hit = reg
        .lookup(
            &path(&["settings", "accounts", "alpha"]),
            &key(no_mods(), KeyCodeRepr::Char('t')),
            Phase::Bubble,
        )
        .expect("should match");
    assert_eq!(hit, &cmd("account.test"));
}

#[test]
fn focused_account_row_r_resolves_to_account_refresh() {
    let reg = populated();
    let hit = reg
        .lookup(
            &path(&["settings", "accounts", "alpha"]),
            &key(no_mods(), KeyCodeRepr::Char('r')),
            Phase::Bubble,
        )
        .expect("should match");
    assert_eq!(hit, &cmd("account.refresh"));
}

#[test]
fn focused_model_row_p_resolves_to_set_bootstrap() {
    let reg = populated();
    let hit = reg
        .lookup(
            &path(&["settings", "models", "anthropic", "claude_haiku"]),
            &key(shift_only(), KeyCodeRepr::Char('P')),
            Phase::Bubble,
        )
        .expect("should match");
    assert_eq!(hit, &cmd("models.set_bootstrap"));
}

#[test]
fn edit_mode_printable_char_is_handled_by_text_input_handler() {
    let reg = populated();
    let cursor = path(&["settings", "_edit"]);
    let chord = key(no_mods(), KeyCodeRepr::Char('x'));

    assert!(
        reg.lookup(&cursor, &chord, Phase::Target).is_none(),
        "discrete tier must not claim printable chars under _edit anymore",
    );
    assert!(
        reg.lookup_handler(&cursor, Phase::Target).is_some(),
        "the opaque TextInputHandler should be registered at (_edit, Target)",
    );
}

#[test]
fn edit_mode_backspace_resolves_to_edit_delete_back() {
    let reg = populated();
    let hit = reg
        .lookup(
            &path(&["settings", "_edit"]),
            &key(no_mods(), KeyCodeRepr::Backspace),
            Phase::Target,
        )
        .expect("should match");
    assert_eq!(hit, &cmd("edit.delete_back"));
}

#[test]
fn edit_mode_enter_resolves_to_edit_commit() {
    let reg = populated();
    let hit = reg
        .lookup(
            &path(&["settings", "_edit"]),
            &key(no_mods(), KeyCodeRepr::Enter),
            Phase::Bubble,
        )
        .expect("should match");
    assert_eq!(hit, &cmd("edit.commit"));
}

#[test]
fn edit_mode_esc_resolves_to_edit_cancel() {
    let reg = populated();
    let hit = reg
        .lookup(
            &path(&["settings", "_edit"]),
            &key(no_mods(), KeyCodeRepr::Esc),
            Phase::Capture,
        )
        .expect("should match");
    assert_eq!(hit, &cmd("edit.cancel"));
}

#[test]
fn models_capital_p_resolves_to_set_bootstrap() {
    let reg = populated();
    let hit = reg
        .lookup(
            &path(&["settings", "models"]),
            &key(shift_only(), KeyCodeRepr::Char('P')),
            Phase::Bubble,
        )
        .expect("should match");
    assert_eq!(hit, &cmd("models.set_bootstrap"));
}

#[test]
fn models_d_resolves_to_toggle_default() {
    // `d` under settings/models toggles default-available membership.
    // The same key under settings/accounts is bound to
    // accounts.delete_confirm; the prefix scopes are disjoint so
    // resolution is unambiguous.
    let reg = populated();
    let hit = reg
        .lookup(
            &path(&["settings", "models"]),
            &key(no_mods(), KeyCodeRepr::Char('d')),
            Phase::Bubble,
        )
        .expect("should match");
    assert_eq!(hit, &cmd("models.toggle_default"));
}

#[test]
fn manual_model_esc_at_form_scope_is_capture_phase() {
    // Esc is registered at the form scope `_manual_model` under
    // Phase::Capture — the wizard claims it before any per-stage
    // leaf sees it.
    let reg = populated();
    let hit = reg
        .lookup(
            &path(&["settings", "_manual_model"]),
            &key(no_mods(), KeyCodeRepr::Esc),
            Phase::Capture,
        )
        .expect("Esc should resolve at Capture");
    assert_eq!(hit, &cmd("models.compose_manual.cancel"));
}

#[test]
fn manual_model_enter_at_form_scope_is_bubble_phase() {
    // Enter advances the wizard from the form scope on Bubble; this
    // leaves Target free for a future multi-line stage to claim
    // Enter as "insert newline" at the leaf.
    let reg = populated();
    let hit = reg
        .lookup(
            &path(&["settings", "_manual_model"]),
            &key(no_mods(), KeyCodeRepr::Enter),
            Phase::Bubble,
        )
        .expect("Enter should resolve at Bubble");
    assert_eq!(hit, &cmd("models.compose_manual.commit"));
}

#[test]
fn manual_model_printable_at_id_leaf_is_target_phase() {
    // Printable ASCII lives on the per-stage leaf scope; same
    // command id services all three stages (the command body reads
    // the active stage from the cursor).
    let reg = populated();
    let hit = reg
        .lookup(
            &path(&["settings", "_manual_model", "id"]),
            &key(no_mods(), KeyCodeRepr::Char('x')),
            Phase::Target,
        )
        .expect("'x' should resolve at the id leaf scope");
    assert_eq!(hit, &cmd("models.compose_manual.insert_char"));
}

#[test]
fn manual_model_backspace_at_ctx_leaf_is_target_phase() {
    let reg = populated();
    let hit = reg
        .lookup(
            &path(&["settings", "_manual_model", "ctx"]),
            &key(no_mods(), KeyCodeRepr::Backspace),
            Phase::Target,
        )
        .expect("Backspace should resolve at the ctx leaf scope");
    assert_eq!(hit, &cmd("models.compose_manual.delete_back"));
}

#[test]
fn manual_model_printable_at_out_leaf_is_target_phase() {
    let reg = populated();
    let hit = reg
        .lookup(
            &path(&["settings", "_manual_model", "out"]),
            &key(no_mods(), KeyCodeRepr::Char('7')),
            Phase::Target,
        )
        .expect("'7' should resolve at the out leaf scope");
    assert_eq!(hit, &cmd("models.compose_manual.insert_char"));
}

#[test]
fn every_registered_binding_round_trips_through_lookup() {
    // Every registered `ScopedBinding` must resolve to *some* command via
    // `lookup`, exercised under its own `(screen, cursor, mode, key)`.
    // For the dominant case (most entries) lookup returns the entry's
    // own `command_id` — a strict round-trip. A small number of entries
    // are intentionally shadowed by an earlier-registered binding with
    // the same scope+key (e.g. `account.test` shadows the text-editing
    // `field.insert` for `t` on `_detail`); those lookup to the
    // shadowing command instead. Both outcomes are acceptable; a `None`
    // is not — that would mean the entry is structurally orphaned.
    let reg = populated();
    let entries = reg.entries();
    let empty_path = path(&[]);

    let mut directly_reachable = 0usize;
    let mut shadowed: Vec<(ScopedBinding, CommandId)> = Vec::new();
    for entry in entries {
        let cursor = entry.scope.keyed_path().unwrap_or(&empty_path);
        let resolved = reg
            .lookup(cursor, &entry.key, entry.phase)
            .unwrap_or_else(|| {
                panic!("binding {entry:?} resolved to None — structurally unreachable")
            });
        if resolved == &entry.command_id {
            directly_reachable += 1;
        } else {
            shadowed.push((entry.clone(), resolved.clone()));
        }
    }
    for (entry, winner) in &shadowed {
        let id = &entry.command_id.0;
        let is_known_text_helper = id == "field.insert";
        assert!(
            is_known_text_helper,
            "unexpected shadowing: {entry:?} shadowed by {winner:?}"
        );
    }
    // Sanity: at least the bulk of day-one bindings round-trip directly.
    assert!(
        directly_reachable >= entries.len() - shadowed.len(),
        "internal counting mismatch"
    );
    assert!(
        directly_reachable > 100,
        "expected most entries to be directly reachable; got {directly_reachable} of {}",
        entries.len()
    );
}

/// True iff the path's first two components are `settings/_*` —
/// the synthetic compound-widget cursor convention.
fn is_compound_widget_scope(p: &Path) -> bool {
    p.components.len() >= 2 && p.components[0] == "settings" && p.components[1].starts_with('_')
}

/// True iff `p` is the container scope for a widget that has a
/// separate leaf scope below it (compose form / manual-model form).
fn is_container_scope(p: &Path) -> bool {
    // Both containers have exactly two components: settings/_name.
    // The single-scope widgets (_confirm_delete, _edit) also
    // have shape settings/_name but no leaf below — they're handled
    // by the leaf classifier and explicitly excluded here.
    if p.components.len() != 2 || p.components[0] != "settings" {
        return false;
    }
    matches!(p.components[1].as_str(), "_compose_form" | "_manual_model")
}

/// True iff `p` is a leaf scope of a compound widget.
///
/// Two shapes:
/// - children of a form-and-leaf widget (`_compose_form/<field>`,
///   `_manual_model/id|ctx|out`);
/// - single-scope widgets where the same scope hosts both lifecycle
///   and leaf bindings (`_confirm_delete`, `_edit`).
fn is_leaf_scope(p: &Path) -> bool {
    if p.components.len() < 2 || p.components[0] != "settings" {
        return false;
    }
    let head = p.components[1].as_str();
    // Split-widget leaves.
    if head == "_compose_form" && p.components.len() == 3 {
        return matches!(
            p.components[2].as_str(),
            "name" | "protocol" | "endpoint" | "auth" | "key"
        );
    }
    if head == "_manual_model" && p.components.len() == 3 {
        return matches!(p.components[2].as_str(), "id" | "ctx" | "out");
    }
    // Single-scope widgets: scope IS the leaf.
    if p.components.len() == 2 {
        return matches!(head, "_confirm_delete" | "_edit");
    }
    false
}

/// Keys that compound widgets route as container lifecycle (not
/// leaf semantics) even when the leaf and the container share a
/// single scope. Excluded from the "every leaf binding is Target"
/// scan because on single-scope widgets these are deliberately
/// hosted at Capture/Bubble on the same scope.
fn is_lifecycle_key(code: &KeyCodeRepr) -> bool {
    matches!(
        code,
        KeyCodeRepr::Esc
            | KeyCodeRepr::Enter
            | KeyCodeRepr::Tab
            | KeyCodeRepr::BackTab
            | KeyCodeRepr::Up
            | KeyCodeRepr::Down
    )
}

fn format_offenders(offenders: &[&ScopedBinding]) -> String {
    offenders
        .iter()
        .map(|e| {
            format!(
                "  scope={:?} key={:?} command_id={:?} phase={:?}",
                e.scope, e.key, e.command_id, e.phase
            )
        })
        .collect::<Vec<_>>()
        .join("\n")
}

#[test]
fn every_esc_on_compound_widget_scope_is_capture_phase() {
    // Esc on a compound-widget scope is always a lifecycle cancel
    // that the container claims before any leaf — so it must fire
    // at Capture. Drift would let a leaf swallow Esc and trap the
    // user inside a sub-mode.
    let reg = populated();
    let offenders: Vec<&ScopedBinding> = reg
        .entries()
        .iter()
        .filter(|e| matches!(&e.scope, BindingScope::Exact(p) if is_compound_widget_scope(p)))
        .filter(|e| e.key.code == KeyCodeRepr::Esc)
        .filter(|e| e.phase != Phase::Capture)
        .collect();

    assert!(
        offenders.is_empty(),
        "Esc bindings on compound-widget scopes must be Phase::Capture but these aren't:\n{}",
        format_offenders(&offenders),
    );
}

#[test]
fn every_enter_on_compound_widget_container_scope_is_bubble_phase() {
    // Enter on a container scope is the form's commit fallback —
    // it must fire only when no leaf claimed Enter at Target. So
    // every container Enter is Bubble; a future multi-line leaf
    // gets to insert a newline at Target without being shadowed.
    let reg = populated();
    let offenders: Vec<&ScopedBinding> = reg
        .entries()
        .iter()
        .filter(|e| matches!(&e.scope, BindingScope::Exact(p) if is_container_scope(p)))
        .filter(|e| e.key.code == KeyCodeRepr::Enter)
        .filter(|e| e.phase != Phase::Bubble)
        .collect();

    assert!(
        offenders.is_empty(),
        "Enter bindings on compound-widget container scopes must be Phase::Bubble but these aren't:\n{}",
        format_offenders(&offenders),
    );
}

#[test]
fn every_binding_on_compound_widget_leaf_scope_is_target_phase() {
    // The leaf scope is where the focused inner widget claims keys
    // — Target phase by definition. Lifecycle keys (Esc/Enter/Tab/
    // BackTab/Up/Down) are excluded: on single-scope widgets like
    // _confirm_delete / _edit the same scope hosts both
    // lifecycle (Capture/Bubble) and leaf (Target) bindings, and
    // the lifecycle ones are pinned by the Esc-Capture and
    // container-Enter-Bubble invariants above.
    let reg = populated();
    let offenders: Vec<&ScopedBinding> = reg
        .entries()
        .iter()
        .filter(|e| matches!(&e.scope, BindingScope::Exact(p) if is_leaf_scope(p)))
        .filter(|e| !is_lifecycle_key(&e.key.code))
        .filter(|e| e.phase != Phase::Target)
        .collect();

    assert!(
        offenders.is_empty(),
        "Non-lifecycle bindings on compound-widget leaf scopes must be Phase::Target but these aren't:\n{}",
        format_offenders(&offenders),
    );
}

#[test]
fn every_anywhere_binding_is_bubble_phase() {
    // `BindingScope::Anywhere` is the lowest-specificity scope —
    // it's the screen-wide fallback. Anywhere bindings must fire
    // at Bubble so any inner compound widget's leaf can shadow
    // the same key at Target. A non-Bubble Anywhere would trap
    // the key globally and break the hierarchical-dispatch model.
    let reg = populated();
    let offenders: Vec<&ScopedBinding> = reg
        .entries()
        .iter()
        .filter(|e| matches!(&e.scope, BindingScope::Anywhere))
        .filter(|e| e.phase != Phase::Bubble)
        .collect();

    assert!(
        offenders.is_empty(),
        "Bindings at BindingScope::Anywhere must be Phase::Bubble but these aren't:\n{}",
        format_offenders(&offenders),
    );
}

#[test]
fn settings_edit_scope_has_no_more_than_lifecycle_discrete_bindings() {
    let reg = populated();
    let edit_scope = path(&["settings", "_edit"]);
    let edit_count = reg
        .entries()
        .iter()
        .filter(|e| matches!(&e.scope, BindingScope::Exact(p) if p == &edit_scope))
        .count();
    assert_eq!(
        edit_count, 3,
        "expected exactly 3 discrete bindings under settings/_edit (Backspace, Enter, Esc); got {edit_count}",
    );
}

#[test]
fn settings_edit_scope_registers_text_input_handler() {
    let reg = populated();
    let edit_scope = path(&["settings", "_edit"]);
    let handler_count = reg
        .handlers()
        .iter()
        .filter(|h| matches!(&h.scope, BindingScope::Exact(p) if p == &edit_scope))
        .filter(|h| h.phase == Phase::Target)
        .count();
    assert_eq!(
        handler_count, 1,
        "expected exactly one handler at (Exact(settings/_edit), Target)",
    );
}
