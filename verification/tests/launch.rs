use ai_jail::launch::{
    active_line, exit_code, run, saved_line, Flags, Job, Launch, LaunchError, LaunchReply,
};

const PLAIN: Flags = Flags {
    landlock_exec: false,
    clean: false,
    status: false,
    init: false,
    bootstrap: false,
    dry_run: false,
};

fn words(all: &[&str]) -> Vec<String> {
    all.iter().map(|word| word.to_string()).collect()
}

fn dir() -> String {
    "/home/user/app".to_string()
}

/// The operations of a launch in which everything succeeds and the child returns 7.
fn operations(flags: Flags, lockdown: bool) -> (Vec<&'static str>, Result<i32, LaunchError>) {
    let mut state = Launch::ParseCli;
    let mut all = vec![];
    loop {
        let (name, reply) = match &state {
            Launch::ParseCli => {
                let command = words(&["codex", "--model", "o3", "codex"]);
                ("parse", LaunchReply::Parsed(Ok((flags, command))))
            }
            Launch::InnerDir { .. } => ("inner dir", LaunchReply::Dir(Ok(dir()))),
            Launch::InnerLoad { .. } => ("inner load", LaunchReply::Done),
            Launch::InnerMerge { .. } => ("inner merge", LaunchReply::Merged { lockdown }),
            Launch::ApplyLandlock { .. } => ("landlock", LaunchReply::Done),
            Launch::Exec { program, args } => {
                assert_eq!(program, "codex");
                assert_eq!(*args, words(&["--model", "o3", "codex"]));
                ("exec", LaunchReply::ExecFailed("no such file".to_string()))
            }
            Launch::LoadConfig { .. } => ("load", LaunchReply::Done),
            Launch::DefaultConfig { .. } => ("default", LaunchReply::Done),
            Launch::MergeConfig { .. } => ("merge", LaunchReply::Merged { lockdown }),
            Launch::ShowStatus { .. } => ("status", LaunchReply::Done),
            Launch::SaveAsAsked { .. } => ("save as asked", LaunchReply::Done),
            Launch::TellSaved { .. } => ("tell saved", LaunchReply::Done),
            Launch::Bootstrap { .. } => ("bootstrap", LaunchReply::Tried(Ok(()))),
            Launch::CheckSandbox { .. } => ("check", LaunchReply::Tried(Ok(()))),
            Launch::PlatformNotes { .. } => ("notes", LaunchReply::Done),
            Launch::Prepare { .. } => ("prepare", LaunchReply::Tried(Ok(()))),
            Launch::CurrentDir { .. } => ("dir", LaunchReply::Dir(Ok(dir()))),
            Launch::SaveConfig { .. } => ("save", LaunchReply::Done),
            Launch::DryRun { .. } => ("dry run", LaunchReply::Done),
            Launch::TellActive { dir: d, .. } => {
                assert_eq!(*d, dir());
                ("tell active", LaunchReply::Done)
            }
            Launch::InstallHandlers { .. } => ("handlers", LaunchReply::Done),
            Launch::Spawn { .. } => ("spawn", LaunchReply::Spawned(Ok(99))),
            Launch::SetChildPid { pid, .. } => {
                assert_eq!(*pid, 99);
                ("pid", LaunchReply::Done)
            }
            Launch::Wait { pid, .. } => {
                assert_eq!(*pid, 99);
                ("wait", LaunchReply::Exited(7))
            }
            Launch::Forget { .. } => ("forget", LaunchReply::Done),
            Launch::CleanUp { .. } => ("clean up", LaunchReply::Done),
            Launch::Finished(_) => break,
        };
        all.push(name);
        assert!(state.is_answered_by(&reply));
        state = run(state, reply);
    }
    assert!(!state.is_answered_by(&LaunchReply::Done));
    match state {
        Launch::Finished(result) => (all, result),
        _ => unreachable!(),
    }
}

#[test]
fn plain_launch() {
    let (ops, result) = operations(PLAIN, false);
    assert_eq!(
        ops,
        vec![
            "parse", "load", "merge", "check", "notes", "prepare", "dir", "save", "tell active",
            "handlers", "spawn", "pid", "wait", "forget", "clean up"
        ]
    );
    assert_eq!(result, Ok(7));
    assert_eq!(exit_code(&result), 7);
}

#[test]
fn lockdown_does_not_write_the_config() {
    let (ops, result) = operations(PLAIN, true);
    assert!(!ops.contains(&"save"));
    assert!(ops.contains(&"spawn"));
    assert_eq!(result, Ok(7));
    let (ops, _) = operations(Flags { dry_run: true, ..PLAIN }, true);
    assert!(!ops.contains(&"save"));
}

#[test]
fn init_writes_the_config_and_ends() {
    for lockdown in [false, true] {
        let (ops, result) = operations(Flags { init: true, ..PLAIN }, lockdown);
        assert_eq!(ops, vec!["parse", "load", "merge", "save as asked", "tell saved"]);
        assert_eq!(result, Ok(0));
    }
}

#[test]
fn clean_ignores_the_file() {
    let (ops, _) = operations(Flags { clean: true, init: true, ..PLAIN }, false);
    assert_eq!(ops, vec!["parse", "default", "merge", "save as asked", "tell saved"]);
}

#[test]
fn status_comes_first() {
    let flags = Flags { status: true, init: true, bootstrap: true, dry_run: true, ..PLAIN };
    let (ops, result) = operations(flags, false);
    assert_eq!(ops, vec!["parse", "load", "merge", "status"]);
    assert_eq!(result, Ok(0));
}

#[test]
fn bootstrap_ends() {
    let (ops, result) = operations(Flags { bootstrap: true, ..PLAIN }, false);
    assert_eq!(ops, vec!["parse", "load", "merge", "bootstrap"]);
    assert_eq!(result, Ok(0));
}

#[test]
fn dry_run_starts_nothing() {
    let (ops, result) = operations(Flags { dry_run: true, ..PLAIN }, false);
    assert_eq!(
        ops,
        vec![
            "parse", "load", "merge", "check", "notes", "prepare", "dir", "save", "dry run",
            "clean up"
        ]
    );
    assert_eq!(result, Ok(0));
}

#[test]
fn landlock_exec_becomes_the_command() {
    let flags = Flags { landlock_exec: true, clean: true, status: true, ..PLAIN };
    let (ops, result) = operations(flags, false);
    assert_eq!(
        ops,
        vec!["parse", "inner dir", "inner load", "inner merge", "landlock", "exec"]
    );
    assert_eq!(exit_code(&result), 1);
    assert_eq!(result.unwrap_err().message(), "Failed to exec codex: no such file");
}

#[test]
fn landlock_exec_splits_the_command() {
    let flags = Flags { landlock_exec: true, ..PLAIN };
    for (command, program, args) in [
        (vec!["sh"], "sh", vec![]),
        (vec!["sh", "-c", "exit 3"], "sh", vec!["-c", "exit 3"]),
        (vec!["", ""], "", vec![""]),
    ] {
        assert_eq!(
            run(Launch::ParseCli, LaunchReply::Parsed(Ok((flags, words(&command))))),
            Launch::InnerDir { program: program.to_string(), args: words(&args) }
        );
    }
    assert_eq!(
        run(Launch::ParseCli, LaunchReply::Parsed(Ok((flags, vec![])))),
        Launch::Finished(Err(LaunchError::NoCommand))
    );
}

#[test]
fn a_command_is_not_needed_outside_of_the_sandbox() {
    assert_eq!(
        run(Launch::ParseCli, LaunchReply::Parsed(Ok((PLAIN, vec![])))),
        Launch::LoadConfig { flags: PLAIN }
    );
}

fn failure(state: Launch, reply: LaunchReply) -> String {
    let prepared = matches!(state, Launch::CurrentDir { .. } | Launch::Spawn { .. });
    let mut state = run(state, reply);
    assert_eq!(prepared, matches!(state, Launch::CleanUp { .. }));
    if prepared {
        state = run(state, LaunchReply::Done);
    }
    match state {
        Launch::Finished(Err(e)) => {
            let message = e.message();
            assert_eq!(exit_code(&Err(e)), 1);
            message
        }
        other => panic!("{other:?}"),
    }
}

#[test]
fn launch_errors_and_their_messages() {
    let e = || "broken".to_string();
    let job = Job { flags: PLAIN, lockdown: false };
    let inner = Flags { landlock_exec: true, ..PLAIN };
    assert_eq!(failure(Launch::ParseCli, LaunchReply::Parsed(Err(e()))), "broken");
    assert_eq!(
        failure(Launch::ParseCli, LaunchReply::Parsed(Ok((inner, vec![])))),
        "--landlock-exec requires a command"
    );
    assert_eq!(
        failure(Launch::InnerDir { program: e(), args: vec![] }, LaunchReply::Dir(Err(e()))),
        "Cannot determine current directory: broken"
    );
    assert_eq!(
        failure(Launch::Exec { program: "sh".to_string(), args: vec![] }, LaunchReply::ExecFailed(e())),
        "Failed to exec sh: broken"
    );
    assert_eq!(failure(Launch::Bootstrap { job }, LaunchReply::Tried(Err(e()))), "broken");
    assert_eq!(failure(Launch::CheckSandbox { job }, LaunchReply::Tried(Err(e()))), "broken");
    assert_eq!(failure(Launch::Prepare { job }, LaunchReply::Tried(Err(e()))), "broken");
    assert_eq!(
        failure(Launch::CurrentDir { job }, LaunchReply::Dir(Err(e()))),
        "Cannot determine current directory: broken"
    );
    assert_eq!(
        failure(Launch::Spawn { job }, LaunchReply::Spawned(Err(e()))),
        "Failed to start sandbox: broken"
    );
}

#[test]
fn active_line_names_the_directory() {
    assert_eq!(active_line("/srv"), "Jail Active: /srv");
}

#[test]
fn saved_line_names_the_file() {
    assert_eq!(saved_line(), "Config saved to .ai-jail");
}

#[test]
fn results_come_from_the_replies() {
    for (flags, code) in [
        (PLAIN, 7),
        (Flags { clean: true, ..PLAIN }, 7),
        (Flags { status: true, ..PLAIN }, 0),
        (Flags { init: true, ..PLAIN }, 0),
        (Flags { bootstrap: true, ..PLAIN }, 0),
        (Flags { dry_run: true, ..PLAIN }, 0),
    ] {
        assert_eq!(operations(flags, false).1, Ok(code));
        assert_eq!(operations(flags, true).1, Ok(code));
    }
}
