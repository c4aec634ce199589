use deployer::error::Error;
use deployer::installation_method::{
    installation_method_from_config, GitInstallationMethod, InstallationMethod,
    InstallationMethodConfig, NoopInstallationMethod, SelectedMethod, TarInstallationMethod,
};
use deployer::plan::{Action, CommandLine};
use deployer::project::{CleanConfig, Project, ProjectConfig};

fn b(s: &str) -> Vec<u8> {
    s.as_bytes().to_vec()
}

fn names(v: &[&str]) -> Vec<Vec<u8>> {
    v.iter().map(|s| b(s)).collect()
}

fn project(auto_clean: bool, keep: usize) -> Project {
    let config = ProjectConfig {
        clean: CleanConfig::new(auto_clean, keep),
        installation_method: InstallationMethodConfig::Noop,
    };
    Project::new(b("/srv/app"), &config)
}

fn runtime_message(e: Error) -> String {
    match e {
        Error::RuntimeError(m) => m,
        other => panic!("unexpected error {:?}", other),
    }
}

fn removed(plan: &[Action]) -> Vec<Vec<u8>> {
    plan.iter()
        .map(|a| match a {
            Action::Remove(n) => n.clone(),
            other => panic!("unexpected action {:?}", other),
        })
        .collect()
}

#[test]
fn rollback_to_previous_normal() {
    let p = project(false, 5);
    let entries = names(&["2021-01-01", "2021-01-02", "2021-01-03"]);
    assert_eq!(p.find_rollback(&entries, Some(b"2021-01-03")), Some(b("2021-01-02")));
    let plan = p.rollback(&entries, Some(b"2021-01-03")).unwrap();
    assert_eq!(
        plan,
        vec![
            Action::SwitchCurrent(b("2021-01-02")),
            Action::Hook { release: b("2021-01-02"), hook: String::from("switch") },
            Action::Rename { from: b("2021-01-03"), to: b("r2021-01-03") },
        ]
    );
}

#[test]
fn rollback_skips_tagged_releases() {
    let p = project(false, 5);
    let entries = names(&["2021-01-01", "r2021-01-02", "i2021-01-04", "2021-01-03"]);
    let plan = p.rollback(&entries, Some(b"2021-01-03")).unwrap();
    assert_eq!(plan[0], Action::SwitchCurrent(b("2021-01-01")));
}

#[test]
fn rollback_without_current() {
    let p = project(false, 5);
    let entries = names(&["2021-01-02", "2021-01-01"]);
    let plan = p.rollback(&entries, None).unwrap();
    assert_eq!(
        plan,
        vec![
            Action::SwitchCurrent(b("2021-01-02")),
            Action::Hook { release: b("2021-01-02"), hook: String::from("switch") },
        ]
    );
}

#[test]
fn rollback_without_candidate_fails() {
    let p = project(false, 5);
    let entries = names(&["r2021-01-01", "i2021-01-02", "2021-01-03"]);
    assert_eq!(p.find_rollback(&entries, Some(b"2021-01-03")), None);
    let e = p.rollback(&entries, Some(b"2021-01-03")).unwrap_err();
    assert_eq!(runtime_message(e), "Cannot rollback");
    let e = p.rollback(&Vec::new(), None).unwrap_err();
    assert_eq!(runtime_message(e), "Cannot rollback");
}

#[test]
fn clean_keeps_newest_normal_releases() {
    let p = project(false, 2);
    let entries = names(&["2021-01-01", "2021-01-02", "2021-01-03"]);
    let plan = p.clean(&entries, None);
    assert_eq!(removed(&plan), names(&["2021-01-01"]));
}

#[test]
fn clean_removes_tagged_releases_regardless_of_count() {
    let p = project(false, 5);
    let entries = names(&["i2021-01-05", "2021-01-01", "r2021-01-02", "2021-01-03"]);
    let plan = p.clean(&entries, Some(b"2021-01-03"));
    assert_eq!(removed(&plan), names(&["i2021-01-05", "r2021-01-02"]));
}

#[test]
fn clean_never_removes_current() {
    let p = project(false, 0);
    let entries = names(&["2021-01-01", "r2021-01-02", "2021-01-03"]);
    let plan = p.clean(&entries, Some(b"r2021-01-02"));
    assert_eq!(removed(&plan), names(&["2021-01-03", "2021-01-01"]));
    let plan = p.clean(&entries, Some(b"2021-01-01"));
    assert_eq!(removed(&plan), names(&["r2021-01-02", "2021-01-03"]));
}

#[test]
fn clean_removes_oldest_first_after_others() {
    let p = project(false, 1);
    let entries = names(&["2021-01-02", "2021-01-04", "i2021-01-05", "2021-01-01", "2021-01-03"]);
    let plan = p.clean(&entries, None);
    assert_eq!(removed(&plan), names(&["i2021-01-05", "2021-01-03", "2021-01-02", "2021-01-01"]));
}

#[test]
fn clean_default_keeps_five() {
    let c = CleanConfig::default();
    assert!(!c.auto_clean());
    assert_eq!(c.keep_releases(), 5);
}

#[test]
fn deploy_plan_with_noop() {
    let p = project(false, 5);
    let plan = p.deploy(b"2021-01-01-10-00-00", Some(b"2020-12-31-10-00-00"), b"shared.txt\n").unwrap();
    assert_eq!(
        plan,
        vec![
            Action::CreateRelease(b("i2021-01-01-10-00-00")),
            Action::Link {
                release: b("i2021-01-01-10-00-00"),
                source: b("shared.txt"),
                dest: b("shared.txt"),
            },
            Action::Hook { release: b("i2021-01-01-10-00-00"), hook: String::from("install") },
            Action::Rename { from: b("i2021-01-01-10-00-00"), to: b("2021-01-01-10-00-00") },
            Action::SwitchCurrent(b("2021-01-01-10-00-00")),
            Action::Hook { release: b("2021-01-01-10-00-00"), hook: String::from("switch") },
        ]
    );
}

#[test]
fn deploy_with_auto_clean_ends_with_clean() {
    let p = project(true, 5);
    let plan = p.deploy(b"2021-01-01-10-00-00", None, b"").unwrap();
    assert_eq!(plan.len(), 6);
    assert_eq!(plan[5], Action::Clean);
    assert_eq!(plan[4], Action::Hook { release: b("2021-01-01-10-00-00"), hook: String::from("switch") });
}

#[test]
fn deploy_over_current_installing_name_fails() {
    let p = project(false, 5);
    let e = p.deploy(b"2021", Some(b"i2021"), b"").unwrap_err();
    assert_eq!(runtime_message(e), "Cannot change state of current release");
}

#[test]
fn deploy_with_tar_runs_extract() {
    let config = ProjectConfig {
        clean: CleanConfig::default(),
        installation_method: InstallationMethodConfig::Tar { filename: String::from("archive.tar.gz") },
    };
    let p = Project::new(b("/srv/app"), &config);
    let plan = p.deploy(b"2021", None, b"").unwrap();
    assert_eq!(
        plan[1],
        Action::Run(CommandLine {
            program: b("tar"),
            args: names(&["xf", "archive.tar.gz", "-C", "/srv/app/releases/i2021"]),
            dir: b("/srv/app"),
            step: String::from("Error running tar extract"),
        })
    );
    assert_eq!(plan[2], Action::Hook { release: b("i2021"), hook: String::from("install") });
}

#[test]
fn git_install_steps() {
    let g = GitInstallationMethod::new("sources", "master");
    let cmds = g.install_to(b"/srv/app", b"/srv/app/releases/i2021");
    assert_eq!(cmds.len(), 3);
    assert_eq!(cmds[0].program, b("git"));
    assert_eq!(cmds[0].args, names(&["fetch", "origin"]));
    assert_eq!(cmds[0].dir, b("sources"));
    assert_eq!(cmds[0].step, "Error running git fetch");
    assert_eq!(
        cmds[1].args,
        names(&[
            "clone",
            "--no-local",
            "--depth",
            "1",
            "--recurse-submodules",
            "--branch",
            "master",
            "sources",
            "/srv/app/releases/i2021",
        ])
    );
    assert_eq!(cmds[1].dir, b("/srv/app"));
    assert_eq!(cmds[1].step, "Error running git clone");
    assert_eq!(cmds[2].program, b("find"));
    assert_eq!(
        cmds[2].args,
        names(&["/srv/app/releases/i2021", "-name", ".git", "-exec", "rm", "-rf", "{}", "+"])
    );
    assert_eq!(cmds[2].step, "Error running rm .git");
}

#[test]
fn tar_install_step() {
    let t = TarInstallationMethod::new("a.tgz");
    let cmds = t.install_to(b"/base", b"/base/releases/x");
    assert_eq!(
        cmds,
        vec![CommandLine {
            program: b("tar"),
            args: names(&["xf", "a.tgz", "-C", "/base/releases/x"]),
            dir: b("/base"),
            step: String::from("Error running tar extract"),
        }]
    );
}

#[test]
fn noop_installs_nothing() {
    let n = NoopInstallationMethod {};
    assert!(n.install_to(b"/base", b"/base/releases/x").is_empty());
}

#[test]
fn config_selects_method() {
    let git = InstallationMethodConfig::Git {
        source_dir: String::from("sources"),
        branch: String::from("main"),
    };
    assert!(matches!(installation_method_from_config(&git), SelectedMethod::Git(_)));
    assert!(matches!(
        installation_method_from_config(&InstallationMethodConfig::Noop),
        SelectedMethod::Noop(_)
    ));
    let m = installation_method_from_config(&git);
    let cmds = m.install_to(b"/b", b"/b/releases/r");
    assert_eq!(cmds[1].args[6], b("main"));
}
