//! Extension contracts and the registries that hold what was loaded.

pub mod loader;
pub mod manager;
pub mod types;

pub use loader::{LoadAction, LoadInput, Loader};
pub use manager::{CommandManager, EventManager, PluginManager, PluginsManager};
pub use types::{
    Command, CommandInfo, CommandRegistrar, Effect, Event, EventRegistrar, EventType, Plugin,
    PluginInfo, PluginRegistrar, Registrar,
};

use vstd::prelude::*;

verus! {

/// The directory that is searched for plugin libraries.
pub const PLUGINS_DIR: &'static str = "plugins";

/// The symbol that every plugin library exports: the function that is
/// handed the registrar once, when the library is loaded.
pub const PLUGIN_ENTRY: &'static str = "plugin_entry";

} // verus!
