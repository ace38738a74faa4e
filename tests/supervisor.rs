use point_manager::data_types::data_server::{
    GetPointConfigAnsw, IpcType, Program, ProgramCustom, ProgramType, ReportType,
};
use point_manager::events::{RunRequest, TerminateRequest};
use point_manager::execm::{
    attach_run, command_line, is_run, run_checker, runner, spawn_execs, terminate, terminate_adder, terminate_cleaner,
    terminator, working_dir, Exec, ExecEntity, Run, Terminate, TerminateAction,
};
use point_manager::sendm::{SendDataType, SendManager};

fn ex(pid: i32, name: &str, keep_run: bool, ipc: Option<IpcType>) -> ExecEntity {
    ExecEntity {
        ex: Exec {
            pid,
            keep_run,
            name: name.to_string(),
            ipc_type: ipc,
            entry: "bin/p".to_string(),
            args_before: None,
            args_after: None,
            is_custom: true,
        },
        run: None,
        terminate: None,
        stream: None,
        stream_state: None,
    }
}

#[test]
fn soft_then_hard_collapse_into_one_hard() {
    let mut execs = vec![ex(1, "a", true, None), ex(2, "b", true, None)];
    terminate_adder(&mut execs, &vec![TerminateRequest { pid: 1, hard: false }, TerminateRequest { pid: 1, hard: true }]);
    assert_eq!(execs[0].terminate, Some(Terminate { hard: true, tl_req: None, clear_cnt: 0 }));
    assert_eq!(execs[1].terminate, None);
}

#[test]
fn soft_then_hard_across_ticks() {
    let mut execs = vec![ex(1, "a", true, None)];
    terminate_adder(&mut execs, &vec![TerminateRequest { pid: 1, hard: false }]);
    terminate_cleaner(&mut execs);
    assert_eq!(execs[0].terminate.unwrap().clear_cnt, 1);
    terminate_adder(&mut execs, &vec![TerminateRequest { pid: 1, hard: true }]);
    assert_eq!(execs[0].terminate, Some(Terminate { hard: true, tl_req: None, clear_cnt: 0 }));
    terminate_adder(&mut execs, &vec![TerminateRequest { pid: 1, hard: false }]);
    assert!(execs[0].terminate.unwrap().hard);
}

#[test]
fn terminate_retired_after_idle_ticks() {
    let mut execs = vec![ex(1, "a", true, None)];
    terminate_adder(&mut execs, &vec![TerminateRequest { pid: 1, hard: false }]);
    for _ in 0..5 {
        terminate_cleaner(&mut execs);
        assert!(execs[0].terminate.is_some());
    }
    terminate_cleaner(&mut execs);
    assert!(execs[0].terminate.is_none());
}

#[test]
fn terminator_uses_ipc_or_kill_and_repeats_after_period() {
    let mut execs = vec![ex(1, "ipcprog", true, Some(IpcType::Json)), ex(2, "plain", true, None), ex(3, "idle", true, None)];
    for e in execs.iter_mut().take(2) {
        e.run = Some(Run { child: 100 });
        e.terminate = Some(Terminate { hard: true, tl_req: None, clear_cnt: 0 });
    }
    execs[2].terminate = Some(Terminate { hard: false, tl_req: None, clear_cnt: 0 });
    let acts = terminator(&mut execs, 1_000);
    match &acts[0] {
        Some(TerminateAction::Ipc { name, hard, ipc_type }) => {
            assert_eq!(name, "ipcprog");
            assert!(*hard);
            assert_eq!(*ipc_type, IpcType::Json);
        }
        _ => panic!("ipc request expected"),
    }
    match &acts[1] {
        Some(TerminateAction::Kill { name }) => assert_eq!(name, "plain"),
        _ => panic!("kill expected"),
    }
    assert!(acts[2].is_none());
    assert_eq!(execs[0].terminate.unwrap().tl_req, Some(1_000));
    let acts = terminator(&mut execs, 3_000);
    assert!(acts.iter().all(|a| a.is_none()));
    let acts = terminator(&mut execs, 6_000);
    assert!(acts[0].is_some() && acts[1].is_some());
}

#[test]
fn run_checker_detaches_and_reports_stop() {
    let mut execs = vec![ex(1, "a", true, None), ex(2, "b", true, None), ex(3, "c", true, None)];
    execs[0].run = Some(Run { child: 10 });
    execs[1].run = Some(Run { child: 11 });
    let mut sm = SendManager::new(0);
    run_checker(&mut execs, &vec![true, false, true], &mut sm, 50);
    assert!(execs[0].run.is_none());
    assert_eq!(execs[1].run, Some(Run { child: 11 }));
    assert_eq!(sm.queue.len(), 1);
    match &sm.queue[0].dtype {
        SendDataType::Report(r) => {
            assert_eq!(r.rtype, ReportType::StopProgram);
            assert_eq!(r.program_id, Some(1));
        }
        _ => panic!("report expected"),
    }
}

#[test]
fn runner_picks_keep_run_or_requested() {
    let mut execs = vec![ex(1, "a", false, None), ex(2, "b", true, None), ex(3, "c", false, None)];
    execs[1].terminate = Some(Terminate { hard: false, tl_req: None, clear_cnt: 0 });
    assert_eq!(runner(&execs, &vec![]), None);
    assert_eq!(runner(&execs, &vec![RunRequest(3)]), Some(2));
    execs[1].terminate = None;
    assert_eq!(runner(&execs, &vec![RunRequest(3)]), Some(1));
}

#[test]
fn spawn_failure_attaches_nothing_and_retries() {
    let mut execs = vec![ex(1, "a", true, None)];
    let mut sm = SendManager::new(0);
    let i = runner(&execs, &vec![]).unwrap();
    attach_run(&mut execs, i, None, &mut sm, 5);
    assert!(execs[0].run.is_none());
    assert!(sm.queue.is_empty());
    assert_eq!(runner(&execs, &vec![]), Some(0));
    attach_run(&mut execs, 0, Some(4242), &mut sm, 6);
    assert_eq!(execs[0].run, Some(Run { child: 4242 }));
    match &sm.queue[0].dtype {
        SendDataType::Report(r) => assert_eq!(r.rtype, ReportType::StartProgram),
        _ => panic!("report expected"),
    }
    assert_eq!(runner(&execs, &vec![]), None);
}

#[test]
fn keep_run_restarted_after_exit() {
    let mut execs = vec![ex(3, "p", true, None)];
    execs[0].run = Some(Run { child: 1 });
    let mut sm = SendManager::new(0);
    run_checker(&mut execs, &vec![true], &mut sm, 1);
    let i = runner(&execs, &vec![]).unwrap();
    attach_run(&mut execs, i, Some(2), &mut sm, 2);
    assert_eq!(execs[0].run, Some(Run { child: 2 }));
}

#[test]
fn command_line_of_custom_and_builtin() {
    let mut e = ex(1, "prog", true, None).ex;
    e.args_before = Some("nice -n 5".to_string());
    e.args_after = Some("--fast  x".to_string());
    let cl = command_line(&e, "/opt/bin");
    assert_eq!(cl, vec!["nice", "-n", "5", "/opt/bin/prog/bin/p", "--fast", "", "x"]);
    assert_eq!(working_dir(&e, "/opt/bin"), Some("/opt/bin/prog/bin".to_string()));
    e.is_custom = false;
    e.args_before = None;
    e.args_after = None;
    e.entry = "ls".to_string();
    assert_eq!(command_line(&e, "/opt/bin"), vec!["ls"]);
    assert_eq!(working_dir(&e, "/opt/bin"), None);
}

#[test]
fn execs_from_config() {
    let config = GetPointConfigAnsw {
        poll_period: 10,
        bin_path: "/b".to_string(),
        ipc_dir: "/i".to_string(),
        programs: vec![
            Program {
                id: 3,
                name: "p".to_string(),
                keep_run: true,
                entry: "bin/p".to_string(),
                args_after: None,
                args_before: Some("-v".to_string()),
                is_indicate: false,
                ptype: ProgramType::Custom(ProgramCustom {
                    autoupdate: true,
                    config_autoupdate: false,
                    asset_autoupdate: false,
                    ipc_type: Some(IpcType::Msgpack),
                    log_level: 1,
                    configs: vec![],
                }),
            },
            Program {
                id: 4,
                name: "q".to_string(),
                keep_run: false,
                entry: "/usr/bin/q".to_string(),
                args_after: None,
                args_before: None,
                is_indicate: false,
                ptype: ProgramType::Builtin,
            },
        ],
    };
    let execs = spawn_execs(&config);
    assert_eq!(execs.len(), 2);
    assert_eq!(execs[0].ex.pid, 3);
    assert!(execs[0].ex.is_custom);
    assert_eq!(execs[0].ex.ipc_type, Some(IpcType::Msgpack));
    assert_eq!(execs[0].ex.args_before, Some("-v".to_string()));
    assert!(!execs[1].ex.is_custom);
    assert_eq!(execs[1].ex.ipc_type, None);
    assert!(execs.iter().all(|e| e.run.is_none() && e.terminate.is_none() && e.stream.is_none()));
}

#[test]
fn terminate_helper_reports_quiescence() {
    let mut execs = vec![ex(3, "p", true, None)];
    execs[0].run = Some(Run { child: 9 });
    let mut evw = Vec::new();
    assert!(is_run(&execs, 3));
    assert!(!terminate(&execs, &mut evw, 3, false));
    assert_eq!(evw, vec![TerminateRequest { pid: 3, hard: false }]);
    execs[0].run = None;
    assert!(terminate(&execs, &mut evw, 3, false));
    assert_eq!(evw.len(), 2);
}

#[test]
fn events_live_for_two_ticks() {
    let mut evs: point_manager::events::Events<RunRequest> = point_manager::events::Events::new();
    evs.send(RunRequest(1));
    assert_eq!(evs.visible(), vec![RunRequest(1)]);
    evs.update();
    evs.send(RunRequest(2));
    assert_eq!(evs.visible(), vec![RunRequest(1), RunRequest(2)]);
    evs.update();
    assert_eq!(evs.visible(), vec![RunRequest(2)]);
    evs.update();
    assert!(evs.visible().is_empty());
}
