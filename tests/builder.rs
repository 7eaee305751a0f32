use myssh_gui::args::{
    connect_args, download_args, profile_add_args, profile_delete_args, profile_list_args,
    upload_args, ConnectionParameters,
};
use myssh_gui::text::decimal_text;

fn params(profile: &str, host: &str, user: &str, port: i32, password: &str, key: &str) -> ConnectionParameters {
    ConnectionParameters {
        profile: profile.to_string(),
        host: host.to_string(),
        user: user.to_string(),
        port,
        password: password.to_string(),
        key_path: key.to_string(),
    }
}

#[test]
fn profile_suppresses_inline_parameters() {
    let p = params("work", "10.0.0.1", "bob", 2222, "secret", "/k");
    assert_eq!(connect_args(&p), vec!["connect", "--profile", "work"]);
}

#[test]
fn inline_parameters_in_order() {
    let p = params("", "10.0.0.1", "bob", 2222, "secret", "/home/bob/.ssh/id");
    assert_eq!(
        connect_args(&p),
        vec![
            "connect", "--host", "10.0.0.1", "--user", "bob", "--port", "2222", "--password",
            "secret", "--key", "/home/bob/.ssh/id"
        ]
    );
}

#[test]
fn empty_inline_parameters_are_omitted() {
    let p = params("", "", "bob", 0, "", "");
    assert_eq!(connect_args(&p), vec!["connect", "--user", "bob"]);
    let q = params("", "h", "", -5, "", "k");
    assert_eq!(connect_args(&q), vec!["connect", "--host", "h", "--key", "k"]);
}

#[test]
fn nothing_set_gives_bare_subcommand() {
    let p = params("", "", "", 0, "", "");
    assert_eq!(connect_args(&p), vec!["connect"]);
}

#[test]
fn upload_appends_paths_even_when_empty() {
    let p = params("work", "ignored", "", 22, "", "");
    assert_eq!(
        upload_args(&p, "", "/tmp/x"),
        vec!["scp", "upload", "--profile", "work", "--local", "", "--remote", "/tmp/x"]
    );
}

#[test]
fn download_with_inline_parameters() {
    let p = params("", "example.org", "alice", 22, "", "");
    assert_eq!(
        download_args(&p, "a.txt", "/srv/a.txt"),
        vec![
            "scp", "download", "--host", "example.org", "--user", "alice", "--port", "22",
            "--local", "a.txt", "--remote", "/srv/a.txt"
        ]
    );
}

#[test]
fn profile_add_always_passes_host_user_port() {
    assert_eq!(
        profile_add_args("test", "", "", 0, "", ""),
        vec!["profile", "add", "test", "--host", "", "--user", "", "--port", "0"]
    );
    assert_eq!(
        profile_add_args("test", "h", "u", -22, "pw", "key"),
        vec![
            "profile", "add", "test", "--host", "h", "--user", "u", "--port", "-22", "--password",
            "pw", "--key", "key"
        ]
    );
}

#[test]
fn profile_list_and_delete_args() {
    assert_eq!(profile_list_args(), vec!["profile", "list"]);
    assert_eq!(profile_delete_args("old"), vec!["profile", "delete", "old"]);
}

#[test]
fn decimal_text_extremes() {
    assert_eq!(decimal_text(0), "0");
    assert_eq!(decimal_text(7), "7");
    assert_eq!(decimal_text(65535), "65535");
    assert_eq!(decimal_text(-1), "-1");
    assert_eq!(decimal_text(i32::MAX), "2147483647");
    assert_eq!(decimal_text(i32::MIN), "-2147483648");
}
