use servers::commands::register_commands;
use servers::error::ServerError;
use servers::plugins::loader::{LoadAction, LoadInput, Loader};
use servers::plugins::types::{CommandInfo, EventType, PluginInfo, Registrar};
use servers::server::dispatcher::{dispatch, Action};

fn load(path: &str) -> LoadAction {
    LoadAction::Load { path: path.to_string() }
}

fn abort(message: &str) -> LoadAction {
    LoadAction::Abort { message: message.to_string() }
}

fn listed(paths: &[&str]) -> LoadInput {
    LoadInput::Listed(Ok(paths.iter().map(|p| p.to_string()).collect()))
}

#[test]
fn new_loader_holds_the_builtin_commands() {
    let loader = Loader::new();
    assert!(!loader.is_done());
    assert_eq!(loader.manager().plugins.len(), 0);
    assert_eq!(loader.manager().events.len(), 0);
    for (position, info) in register_commands().iter().enumerate() {
        assert_eq!(loader.manager().commands.get(position), Some(info));
    }
    assert_eq!(loader.manager().commands.len(), 4);
}

#[test]
fn empty_plugin_directory_starts_with_builtins_only() {
    let mut loader = Loader::new();
    assert_eq!(loader.step(LoadInput::Begin { exists: true }), LoadAction::ReadDir);
    assert_eq!(loader.step(listed(&[])), LoadAction::Done);
    assert!(loader.is_done());
    let manager = loader.finish().unwrap();
    assert_eq!(manager.commands.len(), 4);
    assert_eq!(manager.plugins.len(), 0);
    assert_eq!(manager.events.len(), 0);
    assert_eq!(
        dispatch(&manager, "/unknowncmd"),
        Action::Send { text: "unknown command".to_string() }
    );
}

#[test]
fn missing_directory_is_made_and_is_no_failure() {
    let mut loader = Loader::new();
    assert_eq!(loader.step(LoadInput::Begin { exists: false }), LoadAction::CreateDir);
    assert!(!loader.is_done());
    assert_eq!(loader.step(LoadInput::Created(Ok(()))), LoadAction::ReadDir);
    assert_eq!(loader.step(listed(&[])), LoadAction::Done);
    assert!(loader.is_done());
}

#[test]
fn entries_load_in_listing_order_then_hooks_in_registration_order() {
    let mut loader = Loader::new();
    assert_eq!(loader.step(LoadInput::Begin { exists: true }), LoadAction::ReadDir);
    assert_eq!(loader.step(listed(&["plugins/b.so", "plugins/a.so"])), load("plugins/b.so"));
    // the first library registers two plugins
    loader.register_plugins(PluginInfo::new("b1"));
    loader.register_plugins(PluginInfo::new("b2"));
    assert_eq!(loader.step(LoadInput::Loaded(Ok(()))), load("plugins/a.so"));
    // the second one registers a third, and a command
    loader.register_plugins(PluginInfo::new("a1"));
    loader.register_commands(CommandInfo::new("/a", vec![], "a", "/a"));
    assert_eq!(loader.step(LoadInput::Loaded(Ok(()))), LoadAction::OnLoad { plugin: 0 });
    assert_eq!(loader.step(LoadInput::Hooked), LoadAction::OnLoad { plugin: 1 });
    assert_eq!(loader.step(LoadInput::Hooked), LoadAction::OnLoad { plugin: 2 });
    assert!(!loader.is_done());
    assert_eq!(loader.step(LoadInput::Hooked), LoadAction::Done);
    assert!(loader.is_done());
    assert_eq!(loader.step(LoadInput::Hooked), LoadAction::Done);
    let manager = loader.finish().unwrap();
    assert_eq!(manager.plugins.get(2), Some(&PluginInfo { name: "a1".to_string() }));
    assert_eq!(manager.commands.find("/a"), Some(4));
}

#[test]
fn libraries_without_plugins_run_no_hook() {
    let mut loader = Loader::new();
    loader.step(LoadInput::Begin { exists: true });
    assert_eq!(loader.step(listed(&["x"])), load("x"));
    loader.register_events(EventType::OnConnect);
    assert_eq!(loader.step(LoadInput::Loaded(Ok(()))), LoadAction::Done);
    assert_eq!(loader.finish().unwrap().events.len(), 1);
}

#[test]
fn two_plugins_register_the_same_command_first_loaded_wins() {
    let mut loader = Loader::new();
    loader.step(LoadInput::Begin { exists: true });
    assert_eq!(loader.step(listed(&["A", "B"])), load("A"));
    loader.register_commands(CommandInfo::new("/test", vec![], "from A", "/test"));
    assert_eq!(loader.step(LoadInput::Loaded(Ok(()))), load("B"));
    loader.register_commands(CommandInfo::new("/test", vec![], "from B", "/test"));
    assert_eq!(loader.step(LoadInput::Loaded(Ok(()))), LoadAction::Done);
    let manager = loader.finish().unwrap();
    assert_eq!(
        dispatch(&manager, "/test"),
        Action::Execute { command: 4, args: Vec::new() }
    );
    assert_eq!(manager.commands.get(4).map(|c| c.help.as_str()), Some("from A"));
}

#[test]
fn registering_does_not_move_the_start_on() {
    let mut loader = Loader::new();
    loader.register_plugins(PluginInfo::new("early"));
    assert_eq!(loader.step(LoadInput::Begin { exists: true }), LoadAction::ReadDir);
    loader.register_plugins(PluginInfo::new("later"));
    assert_eq!(loader.step(listed(&[])), LoadAction::OnLoad { plugin: 0 });
}

#[test]
fn unreadable_directory_aborts_the_start() {
    let mut loader = Loader::new();
    loader.step(LoadInput::Begin { exists: true });
    assert_eq!(
        loader.step(LoadInput::Listed(Err("permission denied".to_string()))),
        abort("permission denied")
    );
    assert!(!loader.is_done());
    assert!(loader.finish().is_err());
}

#[test]
fn directory_that_cannot_be_made_aborts_the_start() {
    let mut loader = Loader::new();
    loader.step(LoadInput::Begin { exists: false });
    assert_eq!(loader.step(LoadInput::Created(Err("read-only".to_string()))), abort("read-only"));
}

#[test]
fn library_that_fails_to_load_aborts_and_nothing_more_is_loaded() {
    let mut loader = Loader::new();
    loader.step(LoadInput::Begin { exists: true });
    assert_eq!(loader.step(listed(&["one", "two", "three"])), load("one"));
    loader.register_plugins(PluginInfo::new("one"));
    assert_eq!(loader.step(LoadInput::Loaded(Ok(()))), load("two"));
    assert_eq!(
        loader.step(LoadInput::Loaded(Err("undefined symbol: plugin_entry".to_string()))),
        abort("undefined symbol: plugin_entry")
    );
    for input in [LoadInput::Loaded(Ok(())), LoadInput::Hooked, LoadInput::Begin { exists: true }] {
        assert_eq!(loader.step(input), abort("undefined symbol: plugin_entry"));
    }
    assert!(!loader.is_done());
}

#[test]
fn input_out_of_turn_aborts_the_start() {
    let mut loader = Loader::new();
    assert_eq!(loader.step(LoadInput::Hooked), abort("unexpected step while loading plugins"));
    let mut other = Loader::new();
    other.step(LoadInput::Begin { exists: true });
    assert_eq!(
        other.step(LoadInput::Created(Ok(()))),
        abort("unexpected step while loading plugins")
    );
}

#[test]
fn finish_before_the_end_gives_the_loader_back() {
    let mut loader = Loader::new();
    loader.step(LoadInput::Begin { exists: true });
    let mut loader = loader.finish().unwrap_err();
    assert_eq!(loader.step(listed(&[])), LoadAction::Done);
    assert!(loader.finish().is_ok());
}

#[test]
fn abort_stands_for_a_load_failure() {
    assert_eq!(abort("no lib").error(), Some(ServerError::Load("no lib".to_string())));
    assert_eq!(LoadAction::Done.error(), None);
    assert_eq!(load("x").error(), None);
    assert_eq!(ServerError::Load("no lib".to_string()).reply(), None);
}
