use ox_settings::command_registry::CommandRegistry;
use ox_settings::commands::register_all;
use ox_settings::commands::settings_command::SettingsCommand;
use ox_settings::keys::CommandId;

fn populated() -> CommandRegistry<SettingsCommand> {
    let mut reg = CommandRegistry::new();
    register_all(&mut reg);
    reg
}

#[test]
fn register_all_populates_without_panic() {
    let reg = populated();
    assert!(reg.iter().len() > 0);
}

#[test]
fn register_all_includes_nav_ascend() {
    let reg = populated();
    assert!(reg.lookup(&CommandId(String::from("nav.ascend"))).is_some());
}

#[test]
fn register_all_includes_highlight_index_next() {
    let reg = populated();
    assert!(
        reg.lookup(&CommandId(String::from("highlight.index.next")))
            .is_some()
    );
}

#[test]
fn register_all_includes_app_save() {
    let reg = populated();
    assert!(reg.lookup(&CommandId(String::from("app.save"))).is_some());
}

#[test]
fn register_all_includes_selector_cycle_protocol() {
    let reg = populated();
    assert!(
        reg.lookup(&CommandId(String::from("selector.cycle.protocol")))
            .is_some()
    );
}

#[test]
fn every_command_is_registered_once() {
    let mut reg = populated();
    assert_eq!(reg.iter().len(), 47);
    register_all(&mut reg);
    assert_eq!(reg.iter().len(), 47);
}
