use dockshell::compose::{compose_args, compose_program, ensure_local};
use dockshell::connections::ConnectionInfo;

fn conn(endpoint: &str) -> ConnectionInfo {
    ConnectionInfo {
        id: "x".into(),
        name: "test".into(),
        endpoint: endpoint.into(),
        use_tls: false,
        client_cert_path: None,
        ca_cert_path: None,
    }
}

#[test]
fn builds_the_up_command() {
    let args = compose_args("/stacks/app.yml", &["up", "-d"]);
    assert_eq!(compose_program(), "docker");
    assert_eq!(args, vec!["compose", "-f", "/stacks/app.yml", "up", "-d"]);
}

#[test]
fn builds_the_down_command() {
    let args = compose_args("/stacks/app.yml", &["down"]);
    assert_eq!(args, vec!["compose", "-f", "/stacks/app.yml", "down"]);
}

#[test]
fn rejects_a_remote_connection() {
    let err = ensure_local(&conn("tcp://192.168.1.105:2375")).unwrap_err();
    assert!(err.contains("local connection"));
}

#[test]
fn accepts_the_local_connection() {
    assert!(ensure_local(&conn("local")).is_ok());
}

#[test]
fn remote_refusal_names_the_requirement_exactly() {
    assert_eq!(
        ensure_local(&conn("LOCAL")).unwrap_err(),
        "compose requires a local connection"
    );
    assert!(ensure_local(&conn("")).is_err());
}

#[test]
fn compose_with_no_extra_arguments() {
    assert_eq!(compose_args("a.yml", &[]), vec!["compose", "-f", "a.yml"]);
}
