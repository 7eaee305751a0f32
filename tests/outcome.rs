use myssh_gui::invoke::{
    connect_result, download_result, profile_add_result, profile_delete_result,
    profile_list_result, tool_path, upload_result, ProcessOutcome,
};

fn finished(success: bool, stdout: &[u8], stderr: &[u8]) -> ProcessOutcome {
    ProcessOutcome::Finished { success, stdout: stdout.to_vec(), stderr: stderr.to_vec() }
}

fn not_started(e: &str) -> ProcessOutcome {
    ProcessOutcome::NotStarted { error: e.to_string() }
}

#[test]
fn not_started_fails_every_operation() {
    let o = not_started("No such file or directory (os error 2)");
    let want = Err("Failed to execute myssh: No such file or directory (os error 2)".to_string());
    assert_eq!(connect_result(&o), want);
    assert_eq!(upload_result(&o), want);
    assert_eq!(download_result(&o), want);
    assert_eq!(profile_add_result("test", &o), want);
    assert_eq!(profile_delete_result("test", &o), want);
    assert_eq!(profile_list_result(&o).err(), want.err());
}

#[test]
fn not_started_message_is_never_empty() {
    let o = not_started("");
    assert_eq!(connect_result(&o), Err("Failed to execute myssh: ".to_string()));
}

#[test]
fn profile_add_confirmation_names_profile() {
    let r = profile_add_result("test", &finished(true, b"", b"")).unwrap();
    assert!(r.contains("test"));
    assert_eq!(r, "Profil 'test' cr\u{e9}\u{e9} avec succ\u{e8}s");
}

#[test]
fn profile_delete_confirmation_names_profile() {
    let r = profile_delete_result("old", &finished(true, b"ignored", b"")).unwrap();
    assert_eq!(r, "Profil 'old' supprim\u{e9}");
}

#[test]
fn transfer_confirmations() {
    assert_eq!(upload_result(&finished(true, b"x", b"y")), Ok("Upload r\u{e9}ussi !".to_string()));
    assert_eq!(download_result(&finished(true, b"", b"")), Ok("Download r\u{e9}ussi !".to_string()));
}

#[test]
fn failure_status_gives_error_stream() {
    let o = finished(false, b"partial", b"connection refused\n");
    assert_eq!(connect_result(&o), Err("connection refused\n".to_string()));
    assert_eq!(profile_add_result("p", &o), Err("connection refused\n".to_string()));
    assert_eq!(profile_list_result(&o).err(), Some("connection refused\n".to_string()));
}

#[test]
fn connect_success_gives_output_stream() {
    let o = finished(true, b"Connected to h\n", b"warning");
    assert_eq!(connect_result(&o), Ok("Connected to h\n".to_string()));
}

#[test]
fn invalid_utf8_is_replaced() {
    let o = finished(false, b"", b"bad \xff byte");
    assert_eq!(connect_result(&o), Err("bad \u{fffd} byte".to_string()));
}

#[test]
fn profile_list_success_parses_output() {
    let o = finished(true, b"NAME HOST USER PORT\nalice 10.0.0.1 bob 22\nshort row x\n", b"");
    let v = profile_list_result(&o).unwrap();
    assert_eq!(v.len(), 1);
    assert_eq!(v[0].name, "alice");
    assert_eq!(v[0].host, "10.0.0.1");
    assert_eq!(v[0].user, "bob");
    assert_eq!(v[0].port, 22);
}

#[test]
fn tool_path_prefers_configured_location() {
    assert_eq!(tool_path(Some("/opt/bin/myssh".to_string())), "/opt/bin/myssh");
    assert_eq!(tool_path(None), "../myssh");
}
