use zap::{
    auth_method, group_status, params_json, render, AuthMethod, Config, ExecutableTask, Group,
    Inventory, ParamMap, RunAction, RunEvent, RunMachine, RunSelection, SshConfig, Target, Task,
};

fn inline_task(name: &str, inline: &str) -> Task {
    let mut task = Task::new(name);
    task.script.inline = Some(inline.to_string());
    task
}

fn machine(task: Task, params: ParamMap, dry_run: bool) -> RunMachine {
    RunMachine::new(ExecutableTask::new(task, params), dry_run)
}

// ----- template rendering -----

#[test]
fn render_substitutes_parameters() {
    let mut params = ParamMap::new();
    params.insert("msg".to_string(), "hello".to_string());
    assert_eq!(render("echo \"{{msg}}\"", &params), "echo \"hello\"");
}

#[test]
fn render_unknown_key_becomes_empty() {
    let params = ParamMap::new();
    assert_eq!(render("echo \"{{msg}}\"", &params), "echo \"\"");
}

#[test]
fn render_malformed_template_degrades_to_original() {
    let mut params = ParamMap::new();
    params.insert("msg".to_string(), "hello".to_string());
    assert_eq!(render("echo \"{{msg\"", &params), "echo \"{{msg\"");
}

#[test]
fn render_applies_no_escaping() {
    let mut params = ParamMap::new();
    params.insert("cmd".to_string(), "a > b && c".to_string());
    assert_eq!(render("{{cmd}}", &params), "a > b && c");
}

// ----- parameter JSON -----

#[test]
fn params_json_is_sorted_object() {
    let mut params = ParamMap::new();
    params.insert("msg".to_string(), "hello".to_string());
    assert_eq!(params_json(&params), "{\"msg\":\"hello\"}");

    let mut two = ParamMap::new();
    two.insert("b".to_string(), "2".to_string());
    two.insert("a".to_string(), "1".to_string());
    assert_eq!(params_json(&two), "{\"a\":\"1\",\"b\":\"2\"}");
}

// ----- the run machine -----

#[test]
fn provides_skip_returns_zero_without_upload() {
    let mut params = ParamMap::new();
    params.insert("provides".to_string(), "/tmp/marker".to_string());
    let mut m = machine(inline_task("T", "echo hi"), params, false);

    assert!(matches!(m.action(), Some(RunAction::Connect)));
    m.on_event(RunEvent::Connected(true));
    match m.action() {
        Some(RunAction::CheckFile(path)) => assert_eq!(path, "/tmp/marker"),
        other => panic!("expected the existence check, got {:?}", other.is_some()),
    }
    m.on_event(RunEvent::FileChecked(Some(true)));
    assert_eq!(m.status(), Some(0));
    assert!(m.action().is_none());
}

#[test]
fn provides_missing_falls_through_to_run() {
    let mut params = ParamMap::new();
    params.insert("provides".to_string(), "/tmp/marker".to_string());
    let mut m = machine(inline_task("T", "echo hi"), params, false);
    m.on_event(RunEvent::Connected(true));
    m.on_event(RunEvent::FileChecked(Some(false)));
    assert!(matches!(m.action(), Some(RunAction::Upload(_, _, 0o700))));
}

#[test]
fn provides_check_failure_aborts() {
    let mut params = ParamMap::new();
    params.insert("provides".to_string(), "/tmp/marker".to_string());
    let mut m = machine(inline_task("T", "echo hi"), params, false);
    m.on_event(RunEvent::Connected(true));
    m.on_event(RunEvent::FileChecked(None));
    assert_eq!(m.status(), Some(-1));
}

#[test]
fn unless_skip_returns_zero() {
    let mut params = ParamMap::new();
    params.insert("unless".to_string(), "test -f /tmp/x".to_string());
    let mut m = machine(inline_task("T", "echo hi"), params, false);

    m.on_event(RunEvent::Connected(true));
    match m.action() {
        Some(RunAction::Upload(path, bytes, mode)) => {
            assert_eq!(path, "._zap_command");
            assert_eq!(bytes, b"test -f /tmp/x");
            assert_eq!(mode, 0o700);
        }
        _ => panic!("expected the guard upload"),
    }
    m.on_event(RunEvent::Uploaded(true));
    match m.action() {
        Some(RunAction::ExecRemote(cmd)) => assert_eq!(cmd, "./._zap_command"),
        _ => panic!("expected the guard execution"),
    }
    m.on_event(RunEvent::Exited(0));
    assert_eq!(m.status(), Some(0));
}

#[test]
fn unless_nonzero_runs_the_task() {
    let mut params = ParamMap::new();
    params.insert("unless".to_string(), "false".to_string());
    let mut m = machine(inline_task("T", "echo hi"), params, false);
    m.on_event(RunEvent::Connected(true));
    m.on_event(RunEvent::Uploaded(true));
    m.on_event(RunEvent::Exited(3));
    match m.action() {
        Some(RunAction::Upload(path, bytes, 0o700)) => {
            assert_eq!(path, "._zap_command");
            assert_eq!(bytes, b"echo hi");
        }
        _ => panic!("expected the script upload"),
    }
}

#[test]
fn dry_run_shows_rendered_script_and_returns_zero() {
    let mut params = ParamMap::new();
    params.insert("msg".to_string(), "hello".to_string());
    let mut m = machine(inline_task("T", "echo {{msg}}"), params, true);

    m.on_event(RunEvent::Connected(true));
    match m.action() {
        Some(RunAction::ShowScript(bytes)) => assert_eq!(bytes, b"echo hello"),
        _ => panic!("expected the dry-run display"),
    }
    m.on_event(RunEvent::ScriptShown);
    assert_eq!(m.status(), Some(0));
    assert!(m.action().is_none());
}

#[test]
fn exit_status_propagates_verbatim() {
    let params = ParamMap::new();
    let mut m = machine(inline_task("T", "exit 7"), params, false);

    m.on_event(RunEvent::Connected(true));
    m.on_event(RunEvent::Uploaded(true));
    match m.action() {
        Some(RunAction::ExecRemote(cmd)) => assert_eq!(cmd, "./._zap_command"),
        _ => panic!("expected the script execution"),
    }
    m.on_event(RunEvent::Exited(7));
    match m.action() {
        Some(RunAction::CleanupRemote(cmd)) => {
            assert_eq!(cmd, "rm -f ._zap_command ._zap_args.json")
        }
        _ => panic!("expected the cleanup"),
    }
    m.on_event(RunEvent::CleanedUp);
    assert_eq!(m.status(), Some(7));
}

#[test]
fn connect_failure_returns_minus_one() {
    let params = ParamMap::new();
    let mut m = machine(inline_task("T", "echo hi"), params, false);
    m.on_event(RunEvent::Connected(false));
    assert_eq!(m.status(), Some(-1));
}

#[test]
fn upload_failure_returns_minus_one() {
    let params = ParamMap::new();
    let mut m = machine(inline_task("T", "echo hi"), params, false);
    m.on_event(RunEvent::Connected(true));
    m.on_event(RunEvent::Uploaded(false));
    assert_eq!(m.status(), Some(-1));
}

#[test]
fn no_script_returns_minus_one() {
    let params = ParamMap::new();
    let mut m = machine(Task::new("Empty"), params, false);
    m.on_event(RunEvent::Connected(true));
    assert_eq!(m.status(), Some(-1));
}

#[test]
fn file_script_uploads_args_json() {
    let mut task = Task::new("Deploy");
    task.script.file = Some("./deploy.sh".to_string());
    let mut params = ParamMap::new();
    params.insert("env".to_string(), "prod".to_string());
    let mut m = machine(task, params, false);

    m.on_event(RunEvent::Connected(true));
    match m.action() {
        Some(RunAction::ReadLocalFile(path)) => assert_eq!(path, "./deploy.sh"),
        _ => panic!("expected the local read"),
    }
    m.on_event(RunEvent::LocalFileRead(Some(b"#!/bin/sh\n".to_vec())));
    match m.action() {
        Some(RunAction::Upload(path, bytes, 0o700)) => {
            assert_eq!(path, "._zap_command");
            assert_eq!(bytes, b"#!/bin/sh\n");
        }
        _ => panic!("expected the script upload"),
    }
    m.on_event(RunEvent::Uploaded(true));
    match m.action() {
        Some(RunAction::Upload(path, bytes, 0o400)) => {
            assert_eq!(path, "._zap_args.json");
            assert_eq!(bytes, b"{\"env\":\"prod\"}");
        }
        _ => panic!("expected the args upload"),
    }
    m.on_event(RunEvent::Uploaded(true));
    match m.action() {
        Some(RunAction::ExecRemote(cmd)) => {
            assert_eq!(cmd, "./._zap_command ._zap_args.json")
        }
        _ => panic!("expected execution with the args file"),
    }
    m.on_event(RunEvent::Exited(0));
    m.on_event(RunEvent::CleanedUp);
    assert_eq!(m.status(), Some(0));
}

#[test]
fn unreadable_file_falls_back_to_inline() {
    let mut task = inline_task("T", "echo fallback");
    task.script.file = Some("./gone.sh".to_string());
    let params = ParamMap::new();
    let mut m = machine(task, params, false);
    m.on_event(RunEvent::Connected(true));
    m.on_event(RunEvent::LocalFileRead(None));
    match m.action() {
        Some(RunAction::Upload(_, bytes, _)) => assert_eq!(bytes, b"echo fallback"),
        _ => panic!("expected the fallback upload"),
    }
}

// ----- inventory lookup and fan-out -----

fn target(name: &str, uri: &str) -> Target {
    Target { name: name.to_string(), uri: uri.to_string(), config: None }
}

fn sample_inventory() -> Inventory {
    Inventory {
        groups: vec![Group {
            name: "g".to_string(),
            targets: vec!["a".to_string(), "missing".to_string(), "b".to_string()],
        }],
        targets: vec![target("a", "alpha.example.com"), target("b", "beta.example.com")],
        config: Config { transport: zap::inventory::Transport::Ssh, ssh: None },
    }
}

#[test]
fn group_fanout_skips_unresolvable_member() {
    let inv = sample_inventory();
    let resolved = inv.resolve_group(&inv.groups[0]);
    assert_eq!(resolved, vec![0, 1]);
}

#[test]
fn select_runner_prefers_groups_over_targets() {
    let mut inv = sample_inventory();
    inv.targets.push(target("g", "gamma.example.com"));
    assert!(matches!(inv.select_runner("g"), RunSelection::SelectedGroup(0)));
    assert!(matches!(inv.select_runner("a"), RunSelection::SelectedTarget(0)));
    assert!(matches!(inv.select_runner("nowhere"), RunSelection::NoMatch));
}

#[test]
fn group_status_is_last_wins() {
    assert_eq!(group_status(&vec![]), 1);
    assert_eq!(group_status(&vec![0, 7]), 7);
    assert_eq!(group_status(&vec![5, 0]), 0);
}

// ----- authentication precedence -----

fn ssh_target(password: Option<&str>, key: Option<&str>) -> Target {
    Target {
        name: "t".to_string(),
        uri: "t.example.com".to_string(),
        config: Some(Config {
            transport: zap::inventory::Transport::Ssh,
            ssh: Some(SshConfig {
                user: "admin".to_string(),
                password: password.map(str::to_string),
                privatekey_path: key.map(str::to_string),
            }),
        }),
    }
}

#[test]
fn auth_prefers_password_then_key_then_agent() {
    match auth_method(&ssh_target(Some("secret"), Some("/home/admin/.ssh/id"))) {
        Ok(AuthMethod::Password { user, password }) => {
            assert_eq!(user, "admin");
            assert_eq!(password, "secret");
        }
        _ => panic!("expected password authentication"),
    }
    match auth_method(&ssh_target(None, Some("/home/admin/.ssh/id"))) {
        Ok(AuthMethod::PublicKey { user, keypath }) => {
            assert_eq!(user, "admin");
            assert_eq!(keypath, "/home/admin/.ssh/id");
        }
        _ => panic!("expected public-key authentication"),
    }
    assert!(matches!(auth_method(&target("t", "t.example.com")), Ok(AuthMethod::Agent)));
    assert!(auth_method(&ssh_target(None, None)).is_err());
}
