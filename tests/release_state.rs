use deployer::release::{Release, ReleaseState};
use deployer::plan::Action;
use deployer::error::Error;

fn b(s: &str) -> Vec<u8> {
    s.as_bytes().to_vec()
}

fn runtime_message(e: Error) -> String {
    match e {
        Error::RuntimeError(m) => m,
        other => panic!("unexpected error {:?}", other),
    }
}

#[test]
fn state_from_prefix() {
    assert_eq!(ReleaseState::from_path(b"i2021-01-01"), ReleaseState::Installing);
    assert_eq!(ReleaseState::from_path(b"r2021-01-01"), ReleaseState::Rollbacked);
    assert_eq!(ReleaseState::from_path(b"2021-01-01"), ReleaseState::Normal);
    assert_eq!(ReleaseState::from_path(b"x2021"), ReleaseState::Normal);
}

#[test]
fn state_of_empty_name_is_normal() {
    assert_eq!(ReleaseState::from_path(b""), ReleaseState::Normal);
    assert_eq!(ReleaseState::Installing.new_path_for(b""), b("i"));
    assert_eq!(ReleaseState::Normal.new_path_for(b""), b(""));
}

#[test]
fn rename_replaces_prefix() {
    assert_eq!(ReleaseState::Rollbacked.new_path_for(b"2021-01-01"), b("r2021-01-01"));
    assert_eq!(ReleaseState::Installing.new_path_for(b"r2021-01-01"), b("i2021-01-01"));
    assert_eq!(ReleaseState::Normal.new_path_for(b"i2021-01-01"), b("2021-01-01"));
    assert_eq!(ReleaseState::Normal.new_path_for(b"2021-01-01"), b("2021-01-01"));
    assert_eq!(ReleaseState::Rollbacked.new_path_for(b"r2021-01-01"), b("r2021-01-01"));
}

#[test]
fn rename_round_trips_state() {
    for name in ["2021-01-01", "i2021-01-01", "r2021-01-01", "abc"] {
        for state in [ReleaseState::Normal, ReleaseState::Installing, ReleaseState::Rollbacked] {
            let renamed = state.new_path_for(name.as_bytes());
            assert_eq!(ReleaseState::from_path(&renamed), state);
        }
    }
}

#[test]
fn rename_is_idempotent() {
    for name in ["2021-01-01", "i2021-01-01", "r2021-01-01"] {
        for state in [ReleaseState::Normal, ReleaseState::Installing, ReleaseState::Rollbacked] {
            let once = state.new_path_for(name.as_bytes());
            let twice = state.new_path_for(&once);
            assert_eq!(once, twice);
        }
    }
}

#[test]
fn rename_strips_only_one_prefix() {
    let renamed = ReleaseState::Normal.new_path_for(b"ir2021");
    assert_eq!(renamed, b("r2021"));
    assert_eq!(ReleaseState::from_path(&renamed), ReleaseState::Rollbacked);
}

#[test]
fn release_state_from_its_name() {
    let r = Release::new(b("i2021"));
    assert_eq!(r.state(), ReleaseState::Installing);
    assert_eq!(r.name(), &b("i2021"));
}

#[test]
fn switch_rejects_installing_release() {
    let r = Release::new(b("i2021-01-01"));
    let e = r.do_switch().unwrap_err();
    assert_eq!(runtime_message(e), "Cannot switch release");
}

#[test]
fn switch_rejects_rollbacked_release() {
    let r = Release::new(b("r2021-01-01"));
    let e = r.do_switch().unwrap_err();
    assert_eq!(runtime_message(e), "Cannot switch release");
}

#[test]
fn switch_points_current_then_runs_hook() {
    let r = Release::new(b("2021-01-01"));
    let plan = r.do_switch().unwrap();
    assert_eq!(
        plan,
        vec![
            Action::SwitchCurrent(b("2021-01-01")),
            Action::Hook { release: b("2021-01-01"), hook: String::from("switch") },
        ]
    );
}

#[test]
fn change_state_of_current_fails() {
    let mut r = Release::new(b("2021-01-01"));
    let e = r.change_state(Some(b"2021-01-01"), ReleaseState::Rollbacked).unwrap_err();
    assert_eq!(runtime_message(e), "Cannot change state of current release");
    assert_eq!(r.name(), &b("2021-01-01"));
    assert_eq!(r.state(), ReleaseState::Normal);
}

#[test]
fn change_state_renames() {
    let mut r = Release::new(b("2021-01-01"));
    let a = r.change_state(Some(b"2021-01-02"), ReleaseState::Rollbacked).unwrap();
    assert_eq!(a, Action::Rename { from: b("2021-01-01"), to: b("r2021-01-01") });
    assert_eq!(r.name(), &b("r2021-01-01"));
    assert_eq!(r.state(), ReleaseState::Rollbacked);
    let mut i = Release::new(b("i2021-01-01"));
    let a = i.change_state(None, ReleaseState::Normal).unwrap();
    assert_eq!(a, Action::Rename { from: b("i2021-01-01"), to: b("2021-01-01") });
    assert_eq!(i.state(), ReleaseState::Normal);
}

#[test]
fn release_path_under_base() {
    let r = Release::new(b("2021"));
    assert_eq!(r.get_release_path(b"/srv/app"), b("/srv/app/releases/2021"));
    assert_eq!(r.get_release_path(b"/srv/app/"), b("/srv/app/releases/2021"));
    assert_eq!(r.get_release_path(b""), b("releases/2021"));
}

#[test]
fn hook_action() {
    let r = Release::new(b("2021"));
    assert_eq!(r.do_hook("install"), Action::Hook { release: b("2021"), hook: String::from("install") });
}
