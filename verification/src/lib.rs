//! The logic of the settings screen: what its pages show, what its keys do, and
//! which writes its commands ask for, as functions of what the store holds.

pub mod assoc;
pub mod binding_laws;
pub mod binding_registry;
pub mod bindings;
pub mod bootstrap;
pub mod command_registry;
pub mod commands;
pub mod dispatch;
pub mod help;
pub mod hint_laws;
pub mod install;
pub mod keys;
pub mod naming;
pub mod ordered;
pub mod path;
pub mod paths;
pub mod registry;
pub mod renderers;
pub mod row_laws;
pub mod row_order_laws;
pub mod scopes;
pub mod shortcut_laws;
pub mod shortcuts;
pub mod snapshot;
pub mod text;
pub mod types;
pub mod value;
pub mod view;
pub mod visible_rows;
