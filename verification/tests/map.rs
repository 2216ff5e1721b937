use servers::commands::builtin_manager;
use servers::server::client::Client;
use servers::server::map::{ClientMap, ClientMapValue};

#[test]
fn map_insert_then_get() {
    let mut map = ClientMap::new();
    assert_eq!(map.insert("name", ClientMapValue::String("ann".to_string())), None);
    assert_eq!(map.get("name"), Some(ClientMapValue::String("ann".to_string())));
    assert_eq!(map.get("other"), None);
    assert_eq!(map.len(), 1);
}

#[test]
fn map_insert_replaces_and_returns_old_value() {
    let mut map = ClientMap::new();
    map.insert("n", ClientMapValue::Int(-5));
    assert_eq!(map.insert("n", ClientMapValue::UInt(5)), Some(ClientMapValue::Int(-5)));
    assert_eq!(map.get("n"), Some(ClientMapValue::UInt(5)));
    assert_eq!(map.len(), 1);
}

#[test]
fn map_remove_returns_value_and_forgets_key() {
    let mut map = ClientMap::new();
    map.insert("a", ClientMapValue::Bool(true));
    map.insert("b", ClientMapValue::Array(vec!["x".to_string(), "y".to_string()]));
    map.insert("c", ClientMapValue::Bool(false));
    assert_eq!(map.remove("a"), Some(ClientMapValue::Bool(true)));
    assert_eq!(map.remove("a"), None);
    assert_eq!(map.get("a"), None);
    assert_eq!(
        map.get("b"),
        Some(ClientMapValue::Array(vec!["x".to_string(), "y".to_string()]))
    );
    assert_eq!(map.get("c"), Some(ClientMapValue::Bool(false)));
    assert_eq!(map.len(), 2);
}

#[test]
fn map_keys_are_case_sensitive() {
    let mut map = ClientMap::new();
    map.insert("Key", ClientMapValue::UInt(1));
    map.insert("key", ClientMapValue::UInt(2));
    assert_eq!(map.get("Key"), Some(ClientMapValue::UInt(1)));
    assert_eq!(map.get("key"), Some(ClientMapValue::UInt(2)));
    assert_eq!(map.len(), 2);
}

#[test]
fn value_clone_holds_the_same_data() {
    let values = [
        ClientMapValue::String("s".to_string()),
        ClientMapValue::Array(vec!["a".to_string(), String::new()]),
        ClientMapValue::Array(Vec::new()),
        ClientMapValue::Bool(true),
        ClientMapValue::Int(isize::MIN),
        ClientMapValue::UInt(usize::MAX),
    ];
    for value in values {
        assert_eq!(value.clone(), value);
    }
}

#[test]
fn client_keys_insert_get_delete() {
    let mut client = Client::new_tcp(0, builtin_manager().into());
    assert_eq!(client.get_value("room"), None);
    assert_eq!(client.insert_key("room", ClientMapValue::String("lobby".to_string())), None);
    assert_eq!(
        client.insert_key("room", ClientMapValue::String("hall".to_string())),
        Some(ClientMapValue::String("lobby".to_string()))
    );
    assert_eq!(client.get_value("room"), Some(ClientMapValue::String("hall".to_string())));
    assert_eq!(client.delete_key("room"), Some(ClientMapValue::String("hall".to_string())));
    assert_eq!(client.delete_key("room"), None);
    assert_eq!(client.get_value("room"), None);
    assert_eq!(client.id, 0);
}
