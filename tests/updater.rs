use point_manager::data_types::data_server::{
    GetPointConfigAnsw, GetProgramConfigAnsw, GetUpdateDataAnsw, IpcType, Program, ProgramCustom, ProgramHashes,
    ProgramType, ReportType,
};
use point_manager::events::TerminateRequest;
use point_manager::execm::{
    attach_run, run_checker, runner, terminate_adder, terminate_cleaner, terminator, Exec, ExecEntity, Run, TerminateAction,
};
use point_manager::program_updater::{
    build_update_query, finish_apply, get_config_targets, plan_apply, spawn_update, sys_get_handler, sys_new_handler,
    sys_terminate_handler, take_ready, update_config_hashes, ApplyAction, Applied, FetchRequest, ProgramHashesRes,
    ProgramUpdate, UpdateData, UpdateState, UpdateType,
};
use point_manager::sendm::{SendDataType, SendManager};
use point_manager::utils::AgentError;

fn config() -> GetPointConfigAnsw {
    GetPointConfigAnsw {
        poll_period: 1000,
        bin_path: "/opt/bin".to_string(),
        ipc_dir: "/run/ipc".to_string(),
        programs: vec![
            Program {
                id: 3,
                name: "p".to_string(),
                keep_run: true,
                entry: "bin/p".to_string(),
                args_after: None,
                args_before: None,
                is_indicate: false,
                ptype: ProgramType::Custom(ProgramCustom {
                    autoupdate: true,
                    config_autoupdate: true,
                    asset_autoupdate: true,
                    ipc_type: Some(IpcType::Msgpack),
                    log_level: 0,
                    configs: vec![(30, "etc/p.json".to_string())],
                }),
            },
            Program {
                id: 5,
                name: "q".to_string(),
                keep_run: false,
                entry: "q".to_string(),
                args_after: None,
                args_before: None,
                is_indicate: false,
                ptype: ProgramType::Custom(ProgramCustom {
                    autoupdate: true,
                    config_autoupdate: true,
                    asset_autoupdate: true,
                    ipc_type: None,
                    log_level: 0,
                    configs: vec![],
                }),
            },
            Program {
                id: 9,
                name: "sh".to_string(),
                keep_run: false,
                entry: "/bin/sh".to_string(),
                args_after: None,
                args_before: None,
                is_indicate: false,
                ptype: ProgramType::Builtin,
            },
        ],
    }
}

fn exec_entity(pid: i32, running: bool) -> ExecEntity {
    ExecEntity {
        ex: Exec {
            pid,
            keep_run: true,
            name: "p".to_string(),
            ipc_type: None,
            entry: "bin/p".to_string(),
            args_before: None,
            args_after: None,
            is_custom: true,
        },
        run: if running { Some(Run { child: 77 }) } else { None },
        terminate: None,
        stream: None,
        stream_state: None,
    }
}

fn hashes(entries: Vec<(i32, Vec<u8>)>) -> ProgramHashesRes {
    ProgramHashesRes(entries.into_iter().map(|(id, b)| ProgramHashes { id, build_hash: b, asset_hash: None, configs: vec![] }).collect())
}

#[test]
fn nothing_to_update_spawns_nothing() {
    let mut ups = Vec::new();
    assert!(!spawn_update(&mut ups, GetUpdateDataAnsw::Nothing, &config()));
    assert!(ups.is_empty());
}

#[test]
fn same_task_is_not_spawned_twice() {
    let c = config();
    let mut ups = Vec::new();
    assert!(spawn_update(&mut ups, GetUpdateDataAnsw::Build(3), &c));
    assert!(!spawn_update(&mut ups, GetUpdateDataAnsw::Build(3), &c));
    assert!(spawn_update(&mut ups, GetUpdateDataAnsw::Asset(3, true), &c));
    assert!(spawn_update(&mut ups, GetUpdateDataAnsw::Config(30), &c));
    assert!(!spawn_update(&mut ups, GetUpdateDataAnsw::Config(31), &c));
    assert_eq!(ups.len(), 3);
    assert_eq!(ups[2].pid, 3);
    assert_eq!(ups[2].utype, UpdateType::Config(30));
    assert!(ups.iter().all(|u| u.state == UpdateState::New && u.data.is_none()));
    assert!(ups[0].same_task(&ProgramUpdate { pid: 3, utype: UpdateType::Build, data: None, state: UpdateState::Apply }));
}

#[test]
fn new_updates_fetch_or_skip() {
    let c = config();
    let mut ups = Vec::new();
    spawn_update(&mut ups, GetUpdateDataAnsw::Build(3), &c);
    spawn_update(&mut ups, GetUpdateDataAnsw::Asset(5, false), &c);
    spawn_update(&mut ups, GetUpdateDataAnsw::Config(30), &c);
    let reqs = sys_new_handler(&mut ups);
    assert_eq!(reqs, vec![Some(FetchRequest::Build(3)), None, Some(FetchRequest::Config(30))]);
    assert_eq!(ups[0].state, UpdateState::GetData);
    assert_eq!(ups[1].state, UpdateState::Terminate);
    assert!(matches!(ups[1].data, Some(UpdateData::Asset(None))));
    assert_eq!(ups[2].state, UpdateState::GetData);
}

#[test]
fn integrity_failure_drops_update_and_reports() {
    let c = config();
    let mut ups = Vec::new();
    spawn_update(&mut ups, GetUpdateDataAnsw::Asset(5, true), &c);
    spawn_update(&mut ups, GetUpdateDataAnsw::Build(3), &c);
    sys_new_handler(&mut ups);
    let mut sm = SendManager::new(0);
    sys_get_handler(&mut ups, vec![Some(Err(AgentError::Integrity)), None], &mut sm, 10);
    assert_eq!(ups.len(), 1);
    assert_eq!(ups[0].pid, 3);
    assert_eq!(ups[0].state, UpdateState::GetData);
    assert_eq!(sm.queue.len(), 1);
    match &sm.queue[0].dtype {
        SendDataType::Report(r) => {
            assert_eq!(r.rtype, ReportType::InternalError);
            assert_eq!(r.program_id, Some(5));
        }
        _ => panic!("report expected"),
    }
    assert!(spawn_update(&mut ups, GetUpdateDataAnsw::Asset(5, true), &c));
    assert_eq!(sys_new_handler(&mut ups), vec![None, Some(FetchRequest::Asset(5))]);
}

#[test]
fn network_failure_drops_update_silently() {
    let c = config();
    let mut ups = Vec::new();
    spawn_update(&mut ups, GetUpdateDataAnsw::Build(3), &c);
    sys_new_handler(&mut ups);
    let mut sm = SendManager::new(0);
    sys_get_handler(&mut ups, vec![Some(Err(AgentError::Network))], &mut sm, 10);
    assert!(ups.is_empty());
    assert!(sm.queue.is_empty());
}

#[test]
fn build_update_while_program_runs() {
    let c = config();
    let mut execs = vec![exec_entity(3, true)];
    execs[0].ex.ipc_type = Some(IpcType::Msgpack);
    let mut ups = Vec::new();
    assert!(spawn_update(&mut ups, GetUpdateDataAnsw::Build(3), &c));
    assert_eq!(sys_new_handler(&mut ups), vec![Some(FetchRequest::Build(3))]);
    let mut sm = SendManager::new(0);
    sys_get_handler(&mut ups, vec![Some(Ok(UpdateData::Build("build_3".to_string(), vec![0xAA; 32])))], &mut sm, 5);
    assert_eq!(ups[0].state, UpdateState::Terminate);
    let mut evw = Vec::new();
    sys_terminate_handler(&mut ups, &execs, &mut evw);
    assert_eq!(evw, vec![TerminateRequest { pid: 3, hard: false }]);
    assert_eq!(ups[0].state, UpdateState::Terminate);
    assert!(take_ready(&mut ups).is_empty());
    terminate_adder(&mut execs, &evw);
    let acts = terminator(&mut execs, 100);
    assert!(matches!(&acts[0], Some(TerminateAction::Ipc { hard: false, .. })));
    run_checker(&mut execs, &vec![true], &mut sm, 200);
    assert!(execs[0].run.is_none());
    let mut evw = Vec::new();
    sys_terminate_handler(&mut ups, &execs, &mut evw);
    assert_eq!(ups[0].state, UpdateState::Apply);
    let ready = take_ready(&mut ups);
    assert!(ups.is_empty());
    assert_eq!(ready.len(), 1);
    let (action, applied) = plan_apply(ready.into_iter().next().unwrap(), &c).ok().unwrap();
    match &action {
        ApplyAction::Build(plan) => {
            assert_eq!(plan.program_dir, "/opt/bin/p");
            assert_eq!(plan.temp_dir, "/opt/bin/p.temp");
            assert_eq!(plan.configs, vec![("/opt/bin/p/etc/p.json".to_string(), "/opt/bin/p.temp/etc/p.json".to_string())]);
            assert_eq!(plan.asset, ("/opt/bin/p/asset".to_string(), "/opt/bin/p.temp/asset".to_string()));
            assert_eq!(plan.arch_path, "./temp_download/build_3.tar.zst");
        }
        _ => panic!("build expected"),
    }
    let mut h = hashes(vec![(3, vec![1, 2])]);
    assert!(finish_apply(3, applied, true, &mut h, &mut sm, 50));
    assert_eq!(h.0[0].build_hash, vec![0xAA; 32]);
    match &sm.queue.last().unwrap().dtype {
        SendDataType::Report(r) => assert_eq!(r.rtype, ReportType::BuildUpdate),
        _ => panic!("report expected"),
    }
    assert_eq!(runner(&execs, &vec![]), None);
    for _ in 0..6 {
        terminate_cleaner(&mut execs);
    }
    assert!(execs[0].terminate.is_none());
    let i = runner(&execs, &vec![]).unwrap();
    attach_run(&mut execs, i, Some(78), &mut sm, 300);
    assert_eq!(execs[0].run, Some(Run { child: 78 }));
}

#[test]
fn removed_asset_is_deleted_and_hash_cleared() {
    let c = config();
    let mut ups = Vec::new();
    spawn_update(&mut ups, GetUpdateDataAnsw::Asset(5, false), &c);
    assert_eq!(sys_new_handler(&mut ups), vec![None]);
    let mut evw = Vec::new();
    sys_terminate_handler(&mut ups, &vec![], &mut evw);
    let u = take_ready(&mut ups).into_iter().next().unwrap();
    let (action, applied) = plan_apply(u, &c).ok().unwrap();
    match action {
        ApplyAction::RemoveAsset { asset_dir } => assert_eq!(asset_dir, "/opt/bin/q/asset"),
        _ => panic!("remove expected"),
    }
    let mut h = hashes(vec![(5, vec![])]);
    h.set_asset(5, Some(vec![4]));
    let mut sm = SendManager::new(0);
    assert!(finish_apply(5, applied, true, &mut h, &mut sm, 1));
    assert_eq!(h.0[0].asset_hash, None);
}

#[test]
fn asset_and_config_plans() {
    let c = config();
    let u = ProgramUpdate { pid: 3, utype: UpdateType::Asset(true), data: Some(UpdateData::Asset(Some(("asset_3".to_string(), vec![7])))), state: UpdateState::Apply };
    match plan_apply(u, &c).ok().unwrap() {
        (ApplyAction::SetupAsset { asset_dir, arch_path }, Applied::Asset(Some(h))) => {
            assert_eq!(asset_dir, "/opt/bin/p/asset");
            assert_eq!(arch_path, "./temp_download/asset_3.tar.zst");
            assert_eq!(h, vec![7]);
        }
        _ => panic!("asset setup expected"),
    }
    let u = ProgramUpdate {
        pid: 3,
        utype: UpdateType::Config(30),
        data: Some(UpdateData::Config(GetProgramConfigAnsw { hash: vec![1], data: b"{}".to_vec() })),
        state: UpdateState::Apply,
    };
    match plan_apply(u, &c).ok().unwrap() {
        (ApplyAction::WriteConfig { path, data }, Applied::Config(30)) => {
            assert_eq!(path, "/opt/bin/p/etc/p.json");
            assert_eq!(data, b"{}".to_vec());
        }
        _ => panic!("config write expected"),
    }
}

#[test]
fn unappliable_updates_report_internal_error() {
    let c = config();
    let missing = ProgramUpdate { pid: 42, utype: UpdateType::Build, data: Some(UpdateData::Build("b".to_string(), vec![])), state: UpdateState::Apply };
    let r = plan_apply(missing, &c).err().unwrap();
    assert_eq!(r.rtype, ReportType::InternalError);
    assert_eq!(r.program_id, Some(42));
    let builtin = ProgramUpdate { pid: 9, utype: UpdateType::Build, data: Some(UpdateData::Build("b".to_string(), vec![])), state: UpdateState::Apply };
    assert!(plan_apply(builtin, &c).is_err());
    let bad_cfg = ProgramUpdate {
        pid: 3,
        utype: UpdateType::Config(31),
        data: Some(UpdateData::Config(GetProgramConfigAnsw { hash: vec![], data: vec![] })),
        state: UpdateState::Apply,
    };
    assert!(plan_apply(bad_cfg, &c).is_err());
}

#[test]
fn failed_apply_keeps_hashes() {
    let mut h = hashes(vec![(3, vec![1])]);
    let mut sm = SendManager::new(0);
    assert!(!finish_apply(3, Applied::Build(vec![2]), false, &mut h, &mut sm, 1));
    assert_eq!(h.0[0].build_hash, vec![1]);
    match &sm.queue[0].dtype {
        SendDataType::Report(r) => assert_eq!(r.rtype, ReportType::InternalError),
        _ => panic!("report expected"),
    }
}

#[test]
fn hash_records() {
    let mut h = hashes(vec![(1, vec![1])]);
    h.set_build(1, vec![2]);
    h.set_build(2, vec![3]);
    assert_eq!(h.0.len(), 2);
    assert_eq!(h.0[0].build_hash, vec![2]);
    assert_eq!(h.0[1].id, 2);
    assert_eq!(h.0[1].asset_hash, None);
    h.set_asset(3, Some(vec![5]));
    assert_eq!(h.0[2].build_hash, Vec::<u8>::new());
    assert!(h.set_config(1, 10, vec![7]));
    assert!(!h.set_config(1, 10, vec![7]));
    assert!(h.set_config(1, 10, vec![8]));
    assert!(h.set_config(4, 11, vec![9]));
    assert_eq!(h.0[0].configs, vec![(10, vec![8])]);
    assert_eq!(h.0[3].configs, vec![(11, vec![9])]);
    h.clear_configs();
    assert!(h.0.iter().all(|p| p.configs.is_empty()));
    assert_eq!(h.0[0].build_hash, vec![2]);
}

#[test]
fn builtin_placeholders_and_query() {
    let c = config();
    let mut h = hashes(vec![(3, vec![1])]);
    h.insert_builtin(&c);
    assert_eq!(h.0.len(), 2);
    assert_eq!(h.0[1].id, 9);
    h.insert_builtin(&c);
    assert_eq!(h.0.len(), 2);
    let targets = get_config_targets(&c);
    assert_eq!(targets, vec![(3, 30, "/opt/bin/p/etc/p.json".to_string())]);
    let q = build_update_query(hashes(vec![(3, vec![1])]), &c, vec![(3, 30, vec![6])]);
    assert_eq!(q.len(), 2);
    assert_eq!(q[0].configs, vec![(30, vec![6])]);
    assert_eq!(q[1].id, 9);
    let mut h2 = hashes(vec![(3, vec![1])]);
    assert!(update_config_hashes(&mut h2, vec![(3, 30, vec![6])]));
    assert!(!update_config_hashes(&mut h2, vec![]));
    assert!(h2.0[0].configs.is_empty());
}

#[test]
fn loaded_hashes_keep_first_entry_per_program() {
    let loaded = vec![
        ProgramHashes { id: 1, build_hash: vec![1], asset_hash: None, configs: vec![] },
        ProgramHashes { id: 2, build_hash: vec![2], asset_hash: Some(vec![3]), configs: vec![(5, vec![6])] },
        ProgramHashes { id: 1, build_hash: vec![9], asset_hash: None, configs: vec![] },
    ];
    let h = ProgramHashesRes::from_loaded(loaded);
    assert_eq!(h.0.len(), 2);
    assert_eq!(h.0[0].build_hash, vec![1]);
    assert_eq!(h.0[1].configs, vec![(5, vec![6])]);
}
