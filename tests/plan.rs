use deployer::deployement::Deployement;
use deployer::error::{config_parse_error, config_read_error, Error};
use deployer::installation_method::NoopInstallationMethod;
use deployer::order::{lex_less, sort_names_desc};
use deployer::plan::{join, Action, CommandLine, Outcome};
use deployer::release::Release;

fn b(s: &str) -> Vec<u8> {
    s.as_bytes().to_vec()
}

fn hook() -> Action {
    Action::Hook { release: b("2021"), hook: String::from("install") }
}

fn run() -> Action {
    Action::Run(CommandLine {
        program: b("tar"),
        args: vec![],
        dir: b("/"),
        step: String::from("Error running tar extract"),
    })
}

#[test]
fn step_done_goes_on() {
    assert!(hook().step_result(Outcome::Done).is_ok());
    assert!(run().step_result(Outcome::Exited(true)).is_ok());
}

#[test]
fn failed_hook_stops() {
    match hook().step_result(Outcome::Exited(false)) {
        Err(Error::RuntimeError(m)) => assert_eq!(m, "Hook failed"),
        other => panic!("unexpected {:?}", other),
    }
}

#[test]
fn failed_step_names_it() {
    match run().step_result(Outcome::Exited(false)) {
        Err(Error::RuntimeError(m)) => assert_eq!(m, "Error running tar extract"),
        other => panic!("unexpected {:?}", other),
    }
}

#[test]
fn io_failure_is_kept() {
    let e = std::io::Error::new(std::io::ErrorKind::PermissionDenied, "denied");
    match Action::Remove(b("x")).step_result(Outcome::Failed(e)) {
        Err(Error::IoError(inner)) => assert_eq!(inner.kind(), std::io::ErrorKind::PermissionDenied),
        other => panic!("unexpected {:?}", other),
    }
}

#[test]
fn config_errors() {
    let e = std::io::Error::new(std::io::ErrorKind::NotFound, "missing");
    match config_read_error(e, true) {
        Error::ConfigError(m) => assert_eq!(m, "deployer.toml not found"),
        other => panic!("unexpected {:?}", other),
    }
    let e = std::io::Error::new(std::io::ErrorKind::PermissionDenied, "denied");
    assert!(matches!(config_read_error(e, false), Error::IoError(_)));
    match config_parse_error() {
        Error::ConfigError(m) => assert_eq!(m, "Error while parsing config"),
        other => panic!("unexpected {:?}", other),
    }
}

#[test]
fn byte_order() {
    assert!(lex_less(b"2021-01-01", b"2021-01-02"));
    assert!(!lex_less(b"2021-01-02", b"2021-01-01"));
    assert!(lex_less(b"2021", b"2021-01"));
    assert!(!lex_less(b"abc", b"abc"));
    assert!(lex_less(b"2021", b"i2020"));
}

#[test]
fn sort_descending() {
    let v = vec![b("b"), b("a"), b("c"), b("b")];
    assert_eq!(sort_names_desc(v), vec![b("c"), b("b"), b("b"), b("a")]);
    assert_eq!(sort_names_desc(Vec::new()), Vec::<Vec<u8>>::new());
}

#[test]
fn path_join() {
    assert_eq!(join(b"/a", b"b"), b("/a/b"));
    assert_eq!(join(b"/a/", b"b"), b("/a/b"));
    assert_eq!(join(b"", b"b"), b("b"));
}

#[test]
fn deployement_of_normal_release() {
    let d = Deployement::new(Release::new(b("2021")), NoopInstallationMethod {});
    let plan = d.run(b"/srv", b"x\n").unwrap();
    assert_eq!(
        plan,
        vec![
            Action::Link { release: b("2021"), source: b("x"), dest: b("x") },
            Action::Hook { release: b("2021"), hook: String::from("install") },
            Action::SwitchCurrent(b("2021")),
            Action::Hook { release: b("2021"), hook: String::from("switch") },
        ]
    );
}

#[test]
fn deployement_of_installing_release_fails() {
    let d = Deployement::new(Release::new(b("i2021")), NoopInstallationMethod {});
    match d.run(b"/srv", b"") {
        Err(Error::RuntimeError(m)) => assert_eq!(m, "Cannot switch release"),
        other => panic!("unexpected {:?}", other),
    }
}
