use servers::commands::{builtin_manager, register_commands};
use servers::plugins::manager::{CommandManager, EventManager, PluginManager, PluginsManager};
use servers::plugins::types::{
    CommandInfo, CommandRegistrar, EventRegistrar, EventType, PluginInfo, PluginRegistrar,
    Registrar,
};
use servers::plugins::{PLUGINS_DIR, PLUGIN_ENTRY};

fn command(name: &str, aliases: Vec<&'static str>) -> CommandInfo {
    CommandInfo::new(name, aliases, "help", "usage")
}

#[test]
fn plugin_manager_new_is_empty() {
    let manager = PluginManager::new();
    assert_eq!(manager.len(), 0);
    assert_eq!(manager.get(0), None);
    assert_eq!(PluginManager::default().len(), 0);
}

#[test]
fn plugin_manager_keeps_registration_order() {
    let mut manager = PluginManager::new();
    manager.register_plugin(PluginInfo::new("first"));
    manager.register_plugin(PluginInfo::new("second"));
    assert_eq!(manager.len(), 2);
    assert_eq!(manager.get(0), Some(&PluginInfo { name: "first".to_string() }));
    assert_eq!(manager.get(1), Some(&PluginInfo { name: "second".to_string() }));
    assert_eq!(manager.get(2), None);
}

#[test]
fn command_info_new_copies_all_texts() {
    let info = CommandInfo::new("ping", vec!["p", "pong"], "pings", "ping <who>");
    assert_eq!(
        info,
        CommandInfo {
            name: "ping".to_string(),
            aliases: vec!["p".to_string(), "pong".to_string()],
            help: "pings".to_string(),
            usage: "ping <who>".to_string(),
        }
    );
}

#[test]
fn command_answers_to_name_and_aliases_only() {
    let info = command("/disconnect", vec!["/close", "/exit"]);
    assert!(info.answers_to("/disconnect"));
    assert!(info.answers_to("/close"));
    assert!(info.answers_to("/exit"));
    assert!(!info.answers_to("/disconnec"));
    assert!(!info.answers_to("/Close"));
    assert!(!info.answers_to("help"));
    assert!(!info.answers_to(""));
}

#[test]
fn command_manager_finds_by_name_or_alias() {
    let mut manager = CommandManager::new();
    manager.register_command(command("/a", vec![]));
    manager.register_command(command("/b", vec!["/bee", "b"]));
    manager.register_command(command("/c", vec![]));
    assert_eq!(manager.find("/a"), Some(0));
    assert_eq!(manager.find("/b"), Some(1));
    assert_eq!(manager.find("b"), Some(1));
    assert_eq!(manager.find("/bee"), Some(1));
    assert_eq!(manager.find("/c"), Some(2));
    assert_eq!(manager.find("/d"), None);
    assert_eq!(CommandManager::default().find("/a"), None);
}

#[test]
fn command_manager_first_registration_wins() {
    let mut manager = CommandManager::new();
    manager.register_command(command("/x", vec!["/test"]));
    manager.register_command(command("/test", vec![]));
    manager.register_command(command("/test", vec![]));
    assert_eq!(manager.find("/test"), Some(0));
    assert_eq!(manager.get(1).map(|c| c.name.as_str()), Some("/test"));
    assert_eq!(manager.len(), 3);
    assert_eq!(manager.get(3), None);
}

#[test]
fn event_manager_walks_events_of_one_type_in_order() {
    let mut manager = EventManager::new();
    for event in [
        EventType::OnSend,
        EventType::OnConnect,
        EventType::OnSend,
        EventType::OnCommand,
        EventType::OnConnect,
    ] {
        manager.register_event(event);
    }
    assert_eq!(manager.len(), 5);
    assert_eq!(manager.get(3), Some(EventType::OnCommand));
    assert_eq!(manager.get(5), None);
    assert_eq!(manager.check_event(EventType::OnConnect, 0), Some(1));
    assert_eq!(manager.check_event(EventType::OnConnect, 1), Some(1));
    assert_eq!(manager.check_event(EventType::OnConnect, 2), Some(4));
    assert_eq!(manager.check_event(EventType::OnConnect, 5), None);
    assert_eq!(manager.check_event(EventType::OnSend, 0), Some(0));
    assert_eq!(manager.check_event(EventType::OnSend, 1), Some(2));
    assert_eq!(manager.check_event(EventType::OnSend, 3), None);
    assert_eq!(manager.check_event(EventType::OnCommand, usize::MAX), None);
    assert_eq!(EventManager::default().check_event(EventType::OnSend, 0), None);
}

#[test]
fn plugins_manager_registers_into_its_own_registry_only() {
    let mut manager = PluginsManager::new();
    manager.register_plugins(PluginInfo::new("p"));
    assert_eq!((manager.plugins.len(), manager.commands.len(), manager.events.len()), (1, 0, 0));
    manager.register_commands(command("/c", vec![]));
    assert_eq!((manager.plugins.len(), manager.commands.len(), manager.events.len()), (1, 1, 0));
    manager.register_events(EventType::OnConnect);
    assert_eq!((manager.plugins.len(), manager.commands.len(), manager.events.len()), (1, 1, 1));
    let shared = manager.into();
    assert_eq!(shared.commands.find("/c"), Some(0));
    assert_eq!(PluginsManager::default().commands.len(), 0);
}

#[test]
fn builtin_commands_are_registered_in_order() {
    let commands = register_commands();
    let names: Vec<&str> = commands.iter().map(|c| c.name.as_str()).collect();
    assert_eq!(names, vec!["/broadcast", "/disconnect", "/help", "/id"]);
    assert_eq!(commands[1].aliases, vec!["/close", "/exit"]);
    assert_eq!(commands[2].aliases, vec!["/h", "/?", "?"]);
    assert!(commands[0].aliases.is_empty());
    assert!(commands[3].aliases.is_empty());
    assert_eq!(commands[0].help, "Send message to all connected clients");
    assert_eq!(commands[0].usage, "/broadcast <message>");
    assert_eq!(commands[1].help, "Close the connection");
    assert_eq!(commands[2].help, "Show commands help menu");
    assert_eq!(commands[3].help, "Get id of the client");
    assert_eq!(commands[3].usage, "/id");
}

#[test]
fn builtin_manager_holds_builtins_and_nothing_else() {
    let manager = builtin_manager();
    assert_eq!(manager.plugins.len(), 0);
    assert_eq!(manager.events.len(), 0);
    assert_eq!(manager.commands.len(), 4);
    for (position, info) in register_commands().iter().enumerate() {
        assert_eq!(manager.commands.get(position), Some(info));
    }
}

#[test]
fn builtin_command_wins_over_plugin_command_of_same_name() {
    let mut manager = builtin_manager();
    manager.register_commands(command("/help", vec![]));
    assert_eq!(manager.commands.find("/help"), Some(2));
    assert_eq!(manager.commands.len(), 5);
}

#[test]
fn plugin_constants() {
    assert_eq!(PLUGINS_DIR, "plugins");
    assert_eq!(PLUGIN_ENTRY, "plugin_entry");
}

#[test]
fn summary_counts_what_is_registered() {
    assert_eq!(
        PluginsManager::new().summary(),
        "PluginsManager { plugins: 0, commands: 0, events: 0 }"
    );
    let mut manager = builtin_manager();
    manager.register_plugins(PluginInfo::new("p"));
    for _ in 0..12 {
        manager.register_events(EventType::OnSend);
    }
    assert_eq!(manager.summary(), "PluginsManager { plugins: 1, commands: 4, events: 12 }");
}
