use servers::commands::broadcast::Broadcast;
use servers::commands::builtin_manager;
use servers::commands::disconnect::Disconnect;
use servers::commands::help::{menu, Help};
use servers::commands::id::Id;
use servers::plugins::types::{Command, CommandInfo, Effect, Registrar};
use servers::server::client::Client;
use servers::server::registry::ClientRegistry;

fn args(words: &[&str]) -> Vec<String> {
    words.iter().map(|w| w.to_string()).collect()
}

fn client(id: usize) -> Client {
    Client::new_tcp(id, builtin_manager().into())
}

#[test]
fn help_lists_every_command_on_a_line_of_its_own() {
    let mut c = client(0);
    let effects = Help.execute(&mut c, &vec![0], &args(&["ignored"])).unwrap();
    assert_eq!(
        effects,
        vec![Effect::Send(
            "/broadcast - Send message to all connected clients\n\
             /disconnect - Close the connection\n\
             /help - Show commands help menu\n\
             /id - Get id of the client"
                .to_string()
        )]
    );
}

#[test]
fn help_reply_contains_line_for_registered_ping() {
    let mut manager = builtin_manager();
    manager.register_commands(CommandInfo::new("ping", vec![], "pings", "ping"));
    let mut c = Client::new_tcp(0, manager.into());
    let effects = Help.execute(&mut c, &Vec::new(), &Vec::new()).unwrap();
    assert_eq!(effects.len(), 1);
    match &effects[0] {
        Effect::Send(text) => assert!(text.split('\n').any(|line| line == "ping - pings")),
        other => panic!("help sends a text, not {other:?}"),
    }
}

#[test]
fn help_menu_of_no_commands_is_empty() {
    let manager = servers::plugins::manager::CommandManager::new();
    assert_eq!(menu(&manager), "");
}

#[test]
fn help_descriptor() {
    assert_eq!(Help.name(), "/help");
    assert_eq!(Help.aliases(), vec!["/h", "/?", "?"]);
    assert_eq!(Help.help(), "Show commands help menu");
    assert_eq!(Help.usage(), "/help");
}

#[test]
fn id_sends_the_client_its_id() {
    let mut c = client(42);
    assert_eq!(Id.execute(&mut c, &vec![1, 42], &args(&["x"])), Ok(vec![Effect::Send("42".to_string())]));
    let mut zero = client(0);
    assert_eq!(Id.execute(&mut zero, &Vec::new(), &Vec::new()), Ok(vec![Effect::Send("0".to_string())]));
}

#[test]
fn id_descriptor() {
    assert_eq!(Id.name(), "/id");
    assert!(Id.aliases().is_empty());
    assert_eq!(Id.help(), "Get id of the client");
    assert_eq!(Id.usage(), "/id");
}

#[test]
fn disconnect_closes_the_connection() {
    let mut c = client(1);
    assert_eq!(Disconnect.execute(&mut c, &vec![1], &args(&["now"])), Ok(vec![Effect::Close]));
}

#[test]
fn disconnect_descriptor() {
    assert_eq!(Disconnect.name(), "/disconnect");
    assert_eq!(Disconnect.aliases(), vec!["/close", "/exit"]);
    assert_eq!(Disconnect.help(), "Close the connection");
    assert_eq!(Disconnect.usage(), "/disconnect");
}

#[test]
fn broadcast_without_message_tells_the_sender() {
    let mut c = client(1);
    let missing = Ok(vec![Effect::Send("Missing message".to_string())]);
    assert_eq!(Broadcast.execute(&mut c, &vec![0, 1, 2], &Vec::new()), missing);
    assert_eq!(Broadcast.execute(&mut c, &vec![0, 1, 2], &args(&[""])), missing);
}

#[test]
fn broadcast_delivers_joined_arguments_to_every_client() {
    let mut c = client(1);
    assert_eq!(
        Broadcast.execute(&mut c, &vec![2, 0, 1], &args(&["hello", "all", "of", "you"])),
        Ok(vec![
            Effect::SendTo(2, "hello all of you".to_string()),
            Effect::SendTo(0, "hello all of you".to_string()),
            Effect::SendTo(1, "hello all of you".to_string()),
        ])
    );
    assert_eq!(Broadcast.execute(&mut c, &Vec::new(), &args(&["hi"])), Ok(Vec::new()));
}

#[test]
fn broadcast_descriptor() {
    assert_eq!(Broadcast.name(), "/broadcast");
    assert!(Broadcast.aliases().is_empty());
    assert_eq!(Broadcast.help(), "Send message to all connected clients");
    assert_eq!(Broadcast.usage(), "/broadcast <message>");
}

#[test]
fn broadcast_reaches_present_clients_and_none_that_connect_later() {
    let mut registry = ClientRegistry::new();
    for name in ["a", "b", "c"] {
        registry.register(name).unwrap();
    }
    registry.remove(1);
    let mut effects = Broadcast::fan_out(&registry, "news");
    let later = registry.register("d").unwrap();
    effects.sort_by_key(|effect| match effect {
        Effect::SendTo(id, _) => *id,
        _ => usize::MAX,
    });
    assert_eq!(
        effects,
        vec![Effect::SendTo(0, "news".to_string()), Effect::SendTo(2, "news".to_string())]
    );
    assert!(!effects.contains(&Effect::SendTo(later, "news".to_string())));
}

#[test]
fn commands_leave_the_client_as_it_is() {
    let mut c = client(5);
    c.insert_key("k", servers::server::map::ClientMapValue::Bool(true));
    Help.execute(&mut c, &Vec::new(), &Vec::new()).unwrap();
    Id.execute(&mut c, &Vec::new(), &Vec::new()).unwrap();
    Disconnect.execute(&mut c, &Vec::new(), &Vec::new()).unwrap();
    Broadcast.execute(&mut c, &vec![5], &args(&["x"])).unwrap();
    assert_eq!(c.id, 5);
    assert_eq!(c.get_value("k"), Some(servers::server::map::ClientMapValue::Bool(true)));
}
