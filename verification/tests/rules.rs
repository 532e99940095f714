use tproxy::feat::process::{collect_output, CommandLine};
use tproxy::feat::tproxy::{
    core_uid, reconcile_tproxy_rules, rules_disable, rules_enable, run_script, CommandRun,
    Privilege, Progress, RulesError, RulesReconcile, RunningMode,
};

fn words(command: &CommandLine) -> String {
    let mut words = vec![command.program.clone()];
    words.extend(command.options.iter().cloned());
    words.push("SCRIPT".to_string());
    words.extend(command.script_args.iter().cloned());
    words.join(" ")
}

fn exit(run: CommandRun, code: Option<i32>, stderr: &str) -> Progress {
    run.command_exited(collect_output(code, Some(Vec::new()), Some(stderr.as_bytes().to_vec())))
}

fn elevator(path: &str) -> Privilege {
    Privilege::Elevator(path.to_string())
}

#[test]
fn only_a_service_core_has_a_uid_to_exclude() {
    assert_eq!(core_uid(RunningMode::Service), "0");
    assert_eq!(core_uid(RunningMode::Sidecar), "");
}

#[test]
fn the_toggle_decides_the_target() {
    assert_eq!(reconcile_tproxy_rules(true, 7896), RulesReconcile::Enable(7896));
    assert_eq!(reconcile_tproxy_rules(false, 7896), RulesReconcile::Disable);
}

#[test]
fn root_runs_the_script_itself() {
    let run = rules_enable(7896, RunningMode::Service, Privilege::Root);
    assert_eq!(words(&run.command), "bash SCRIPT enable 0xff 100 7890 7896 1053 0");
    assert!(run.fallback.is_none());
    assert_eq!(run.target, RulesReconcile::Enable(7896));
}

#[test]
fn disabling_tells_port_zero() {
    let run = rules_disable(RunningMode::Sidecar, Privilege::Root);
    assert_eq!(words(&run.command), "bash SCRIPT disable 0xff 100 7890 0 1053 ");
    assert_eq!(run.command.script_args.len(), 7);
    assert_eq!(run.command.script_args[6], "");
}

#[test]
fn pkexec_has_sudo_to_fall_back_on() {
    let run = rules_enable(65535, RunningMode::Sidecar, elevator("/usr/bin/pkexec"));
    assert_eq!(
        words(&run.command),
        "/usr/bin/pkexec --disable-internal-agent bash SCRIPT enable 0xff 100 7890 65535 1053 "
    );
    assert_eq!(
        words(run.fallback.as_ref().unwrap()),
        "sudo bash SCRIPT enable 0xff 100 7890 65535 1053 "
    );
}

#[test]
fn another_helper_has_no_fallback() {
    let run = run_script(RulesReconcile::Disable, RunningMode::Service, elevator("sudo"));
    assert_eq!(
        words(&run.command),
        "sudo --disable-internal-agent bash SCRIPT disable 0xff 100 7890 0 1053 0"
    );
    assert!(run.fallback.is_none());
}

#[test]
fn success_ends_a_run() {
    let run = rules_enable(7896, RunningMode::Service, elevator("pkexec"));
    match exit(run, Some(0), " installed\n") {
        Progress::Done(Ok(remarks)) => assert_eq!(remarks, "installed"),
        _ => panic!("the run should be over"),
    }
}

#[test]
fn a_failed_pkexec_leads_to_sudo_once() {
    let run = rules_enable(7896, RunningMode::Service, elevator("pkexec"));
    let retry = match exit(run, Some(127), "no agent") {
        Progress::Retry(run) => run,
        _ => panic!("sudo should be tried"),
    };
    assert_eq!(words(&retry.command), "sudo bash SCRIPT enable 0xff 100 7890 7896 1053 0");
    match exit(retry, Some(1), "\nsudo: a password is required\n") {
        Progress::Done(Err(error)) => assert_eq!(
            error.message(),
            "TPROXY rules enable failed (exit Some(1)): sudo: a password is required"
        ),
        _ => panic!("the run should have failed"),
    }
}

#[test]
fn sudo_can_still_succeed() {
    let run = rules_disable(RunningMode::Service, elevator("pkexec"));
    let retry = match exit(run, None, "") {
        Progress::Retry(run) => run,
        _ => panic!("sudo should be tried"),
    };
    assert!(matches!(exit(retry, Some(0), ""), Progress::Done(Ok(_))));
}

#[test]
fn a_failure_without_fallback_is_an_error() {
    let run = rules_disable(RunningMode::Service, Privilege::Root);
    match exit(run, None, "killed") {
        Progress::Done(Err(error)) => {
            assert_eq!(error.message(), "TPROXY rules disable failed (exit None): killed");
            assert!(matches!(
                error,
                RulesError::ScriptFailed { target: RulesReconcile::Disable, code: None, .. }
            ));
        }
        _ => panic!("the run should have failed"),
    }
}

#[test]
fn a_timeout_names_the_time_allowed() {
    assert_eq!(
        RulesError::TimedOut.message(),
        "TPROXY rules took more than 120s to apply; the elevation prompt may have been ignored"
    );
}

#[test]
fn exit_codes_are_shown_like_std_shows_them() {
    for code in [Some(1), Some(-1), Some(126), Some(2147483647), Some(-2147483648), None] {
        let error = RulesError::ScriptFailed {
            target: RulesReconcile::Enable(1),
            code,
            stderr: "x".to_string(),
        };
        assert_eq!(error.message(), format!("TPROXY rules enable failed (exit {:?}): x", code));
    }
}

#[test]
fn every_target_has_its_own_arguments() {
    let mut seen: Vec<Vec<String>> = Vec::new();
    for target in [RulesReconcile::Disable, RulesReconcile::Enable(0), RulesReconcile::Enable(1), RulesReconcile::Enable(10)] {
        for mode in [RunningMode::Service, RunningMode::Sidecar] {
            let args = run_script(target, mode, Privilege::Root).command.script_args;
            assert!(!seen.contains(&args));
            seen.push(args);
        }
    }
}

#[test]
fn stderr_that_is_not_utf8_is_shown_with_replacements() {
    let run = rules_enable(7896, RunningMode::Service, Privilege::Root);
    match run.command_exited(collect_output(Some(1), None, Some(vec![0x61, 0xff, 0x0a]))) {
        Progress::Done(Err(error)) => {
            assert_eq!(error.message(), "TPROXY rules enable failed (exit Some(1)): a\u{fffd}")
        }
        _ => panic!("the run should have failed"),
    }
}

#[test]
fn text_on_stderr_settles_a_run() {
    let run = rules_disable(RunningMode::Service, Privilege::Root);
    match run.settle(Some(0), "\t removed \u{e9}\n") {
        Progress::Done(Ok(remarks)) => assert_eq!(remarks, "removed \u{e9}"),
        _ => panic!("the run should be over"),
    }
    let run = rules_disable(RunningMode::Service, Privilege::Root);
    assert!(matches!(run.settle(Some(2), "x"), Progress::Done(Err(_))));
    let run = rules_disable(RunningMode::Service, elevator("pkexec"));
    assert!(matches!(run.settle(Some(2), "x"), Progress::Retry(_)));
}

#[test]
fn a_target_has_a_word_and_a_port() {
    assert_eq!(RulesReconcile::Enable(7896).action_word(), "enable");
    assert_eq!(RulesReconcile::Enable(7896).port_number(), 7896);
    assert_eq!(RulesReconcile::Disable.action_word(), "disable");
    assert_eq!(RulesReconcile::Disable.port_number(), 0);
}
