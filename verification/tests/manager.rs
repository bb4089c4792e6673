use mcp_manager::manager::{
    flush_failure_message, kill_failure_message, no_stdin_message, no_stdout_message,
    not_found_message, read_failure_message, spawn_failure_message, started_message,
    tokens_exhausted_message, write_failure_message, McpServerManager,
};

#[test]
fn start_two_servers_independent() {
    let mut m = McpServerManager::new();
    let a = String::from("alpha");
    let b = String::from("beta");
    assert_eq!(m.prepare_start(&a), None);
    let ha = m.register_started(&a).unwrap();
    assert_eq!(m.prepare_start(&b), None);
    let hb = m.register_started(&b).unwrap();
    assert_ne!(ha, hb);
    assert_eq!(m.lookup_server(&a), Ok(ha));
    assert_eq!(m.lookup_server(&b), Ok(hb));
    assert_eq!(m.stop_server(&a), Ok(ha));
    assert_eq!(m.lookup_server(&a), Err(String::from("Server alpha not found")));
    assert_eq!(m.lookup_server(&b), Ok(hb));
}

#[test]
fn replacing_a_server_keeps_one_entry() {
    let mut m = McpServerManager::new();
    let a = String::from("alpha");
    assert_eq!(m.prepare_start(&a), None);
    let h1 = m.register_started(&a).unwrap();
    assert_eq!(m.lookup_server(&a), Ok(h1));
    let old = m.prepare_start(&a);
    assert_eq!(old, Some(h1));
    let h2 = m.register_started(&a).unwrap();
    assert_ne!(h1, h2);
    assert_eq!(m.lookup_server(&a), Ok(h2));
    assert_eq!(m.stop_server(&a), Ok(h2));
    assert_eq!(m.lookup_server(&a), Err(String::from("Server alpha not found")));
}

#[test]
fn stopping_unregistered_is_not_found_and_unchanged() {
    let mut m = McpServerManager::new();
    let a = String::from("alpha");
    m.prepare_start(&a);
    let ha = m.register_started(&a).unwrap();
    let missing = String::from("missing");
    assert_eq!(m.stop_server(&missing), Err(String::from("Server missing not found")));
    assert_eq!(m.lookup_server(&a), Ok(ha));
    assert_eq!(m.stop_server(&missing), Err(String::from("Server missing not found")));
}

#[test]
fn sending_to_unregistered_is_not_found() {
    let m = McpServerManager::new();
    let ghost_id = String::from("ghost");
    assert_eq!(m.lookup_server(&ghost_id), Err(String::from("Server ghost not found")));
}

#[test]
fn stop_then_lookup_of_empty_manager() {
    let mut m = McpServerManager::new();
    let a = String::from("a");
    assert_eq!(m.stop_server(&a), Err(String::from("Server a not found")));
    assert_eq!(m.lookup_server(&a), Err(String::from("Server a not found")));
}

#[test]
fn message_builders_exact() {
    assert_eq!(not_found_message("x"), "Server x not found");
    assert_eq!(started_message("x"), "Server x started");
    assert_eq!(spawn_failure_message("denied"), "Failed to spawn process: denied");
    assert_eq!(kill_failure_message("gone"), "Failed to kill process: gone");
    assert_eq!(write_failure_message("pipe"), "Failed to write to stdin: pipe");
    assert_eq!(flush_failure_message("pipe"), "Failed to flush stdin: pipe");
    assert_eq!(
        read_failure_message("s1", "stream closed"),
        "Failed to read from stdout (s1): stream closed"
    );
    assert_eq!(no_stdin_message(), "Failed to get stdin");
    assert_eq!(no_stdout_message(), "Failed to get stdout");
    assert_eq!(tokens_exhausted_message(), "Failed to register process: no handle token left");
}
