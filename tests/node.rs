use point_manager::certm::{point_name, register_step, reset_cert, sys_reset, RegisterStep};
use point_manager::configm::{config_fetched, ConfigBase};
use point_manager::data_types::data_server::{
    Auth, CmdType, GetPointConfigAnsw, ModuleStatus, PollAnsw, RegisterAnsw, RegisterData, Report, ReportType, Request,
    Stat, StatusCode,
};
use point_manager::data_types::file_server::ResourceType;
use point_manager::data_types::{AppState, AppStateCode, Cert};
use point_manager::events::{Cmd, PollEvent, Stream};
use point_manager::ipcm::handle_request;
use point_manager::sendm::{SendDataType, SendManager};
use point_manager::srvm::Server;
use point_manager::utils::ipc::{format_sock_path, Ipc, Log, RequestFromProgram, RequestToProgram, ResAnsw};
use point_manager::utils::mos::{
    format_asset_path, format_entry_dir, format_entry_path, format_program_path, format_temp_arch_path, hash_vec,
    parent_dir, split_args,
};
use point_manager::utils::siapi::{check_download, format_i32, format_u32, hash_matches, IntApi};
use point_manager::utils::AgentError;

fn base_cert() -> Cert {
    Cert {
        host: "cp.example".to_string(),
        data_port: 7000,
        file_port: 7001,
        stream_port: 7002,
        name: None,
        firm_id: None,
        firm_name: Some("acme".to_string()),
        auth: None,
    }
}

fn empty_config() -> GetPointConfigAnsw {
    GetPointConfigAnsw { poll_period: 500, bin_path: "/b".to_string(), ipc_dir: "/i".to_string(), programs: vec![] }
}

#[test]
fn cold_start_registration() {
    let cert = base_cert();
    assert_eq!(point_name(&cert, "host-42".to_string()), "host-42");
    let client = IntApi::from_cert(base_cert());
    assert!(client.is_none());
    let anon = IntApi::new(cert.host.clone(), cert.data_port, cert.file_port, 0, Vec::new());
    match anon.register("host-42".to_string(), cert.firm_name.clone()) {
        Request::Register(n, f) => {
            assert_eq!(n, "host-42");
            assert_eq!(f, Some("acme".to_string()));
        }
        _ => panic!("register request expected"),
    }
    assert!(matches!(register_step(base_cert(), RegisterAnsw::Proceed), RegisterStep::Retry(_)));
    assert!(matches!(register_step(base_cert(), RegisterAnsw::ProceedIndicate), RegisterStep::Indicate(_)));
    let data = RegisterData { id: 7, name: "host-42".to_string(), firm_id: 3, firm_name: "acme".to_string(), token: vec![0xAB] };
    let registered = match register_step(cert, RegisterAnsw::Registered(data)) {
        RegisterStep::Done(c) => c,
        _ => panic!("registration expected"),
    };
    assert_eq!(registered.host, "cp.example");
    assert_eq!(registered.stream_port, 7002);
    assert_eq!(registered.name, Some("host-42".to_string()));
    let auth = registered.auth.as_ref().unwrap();
    assert_eq!(auth.id, 7);
    assert_eq!(auth.token, vec![0xAB]);
    let api = IntApi::from_cert(registered).unwrap();
    match api.poll() {
        Request::Poll(a) => {
            assert_eq!(a.id, 7);
            assert_eq!(a.token, vec![0xAB]);
        }
        _ => panic!("poll expected"),
    }
    assert!(matches!(api.get_point_config(), Request::GetPointConfig(_)));
    let mut current = empty_config();
    let mut sm = SendManager::new(0);
    let mut fetched = empty_config();
    fetched.poll_period = 900;
    config_fetched(&mut current, fetched, &mut sm, 3);
    assert_eq!(current.poll_period, 900);
    match &sm.queue[0].dtype {
        SendDataType::Report(r) => assert_eq!(r.rtype, ReportType::PointConfigUpdate),
        _ => panic!("report expected"),
    }
}

#[test]
fn access_revoked_resets_and_shuts_down() {
    let mut cert = base_cert();
    cert.firm_id = Some(3);
    cert.name = Some("n".to_string());
    cert.auth = Some(Auth { id: 1, token: vec![1] });
    let api = IntApi::new("h".to_string(), 1, 2, 1, vec![1]);
    let mut srv = Server::new(api, 0);
    assert_eq!(srv.handle_poll(Ok(PollAnsw::NotReg)), Some(PollEvent::NotReg));
    assert_eq!(srv.handle_poll(Err(AgentError::AccessDenied)), Some(PollEvent::NotReg));
    let mut st = AppState { code: AppStateCode::Normal };
    let reset = sys_reset(&cert, &mut st);
    assert!(reset.auth.is_none());
    assert!(reset.firm_id.is_none());
    assert_eq!(reset.name, Some("n".to_string()));
    assert_eq!(reset.firm_name, Some("acme".to_string()));
    assert_eq!(st.code, AppStateCode::Shutdown);
    assert!(st.is_terminate());
    let r2 = reset_cert(&cert);
    assert_eq!(r2.host, "cp.example");
    assert!(r2.auth.is_none());
}

#[test]
fn poll_answers_become_events() {
    let api = IntApi::new("h".to_string(), 1, 2, 1, vec![1]);
    let mut srv = Server::new(api, 0);
    assert!(!srv.poll_due(500, 1000));
    assert!(srv.poll_due(1000, 1000));
    assert_eq!(srv.tl_poll, 1000);
    assert_eq!(srv.handle_poll(Ok(PollAnsw::Nothing)), None);
    assert!(srv.is_connect);
    assert_eq!(srv.handle_poll(Ok(PollAnsw::ProgramDataChanged)), Some(PollEvent::ProgramUpdateAvailable));
    assert_eq!(srv.handle_poll(Ok(PollAnsw::PointConfigChanged)), Some(PollEvent::PointUpdateAvailable));
    assert_eq!(srv.handle_poll(Ok(PollAnsw::Stream(11, 4))), Some(PollEvent::Stream(Stream { id: 11, program_id: 4 })));
    assert_eq!(
        srv.handle_poll(Ok(PollAnsw::Cmd(2, CmdType::StartProgram(3)))),
        Some(PollEvent::Cmd(Cmd { id: 2, ctype: CmdType::StartProgram(3) }))
    );
    assert_eq!(srv.handle_poll(Err(AgentError::Network)), None);
    assert!(!srv.is_connect);
}

#[test]
fn paths() {
    assert_eq!(format_program_path("p", "/opt/bin"), "/opt/bin/p");
    assert_eq!(format_entry_path("p", "bin/p", "/opt/bin"), "/opt/bin/p/bin/p");
    assert_eq!(format_entry_dir("p", "bin/p", "/opt/bin"), "/opt/bin/p/bin");
    assert_eq!(format_entry_dir("p", "run", "."), "./p");
    assert_eq!(format_asset_path("p", "/opt/bin"), "/opt/bin/p/asset");
    assert_eq!(format_temp_arch_path("build_3"), "./temp_download/build_3.tar.zst");
    assert_eq!(parent_dir("noslash"), "");
    assert_eq!(format_sock_path("p", "/run/ipc"), "/run/ipc/p");
    assert_eq!(split_args("a b"), vec!["a", "b"]);
    assert_eq!(split_args(""), vec![""]);
    assert_eq!(split_args(" a"), vec!["", "a"]);
}

#[test]
fn decimal_text() {
    assert_eq!(format_u32(0), "0");
    assert_eq!(format_u32(4096), "4096");
    assert_eq!(format_i32(-17), "-17");
    assert_eq!(format_i32(i32::MIN), "-2147483648");
    assert_eq!(format_i32(i32::MAX), "2147483647");
}

#[test]
fn download_requests() {
    let api = IntApi::new("h".to_string(), 1, 2, 7, vec![0xAB]);
    let (req, name) = api.download_program(3);
    assert_eq!(name, "build_3");
    assert_eq!(req.point_id, 7);
    assert_eq!(req.point_program_id, 3);
    assert_eq!(req.token, vec![0xAB]);
    assert_eq!(req.res_type, ResourceType::Build);
    let (req, name) = api.download_asset(5);
    assert_eq!(name, "asset_5");
    assert_eq!(req.res_type, ResourceType::Asset);
    assert_eq!(api.get_host(), "h");
    match api.send_report(Report { delay: 1, rtype: ReportType::Reboot, program_id: None, descr: None }) {
        Request::AddReport(a, r) => {
            assert_eq!(a.id, 7);
            assert_eq!(r.delay, 1);
        }
        _ => panic!("report request expected"),
    }
    match api.get_program_config(30) {
        Request::GetProgramConfig(_, c) => assert_eq!(c, 30),
        _ => panic!("config request expected"),
    }
}

#[test]
fn sha256_digest_and_integrity() {
    let digest = hash_vec(&b"abc".to_vec());
    let expected: Vec<u8> = vec![
        0xba, 0x78, 0x16, 0xbf, 0x8f, 0x01, 0xcf, 0xea, 0x41, 0x41, 0x40, 0xde, 0x5d, 0xae, 0x22, 0x23, 0xb0, 0x03, 0x61,
        0xa3, 0x96, 0x17, 0x7a, 0x9c, 0xb4, 0x10, 0xff, 0x61, 0xf2, 0x00, 0x15, 0xad,
    ];
    assert_eq!(digest, expected);
    assert_eq!(check_download(&b"abc".to_vec(), &expected), Ok(()));
    assert_eq!(check_download(&b"abd".to_vec(), &expected), Err(AgentError::Integrity));
    assert_eq!(hash_matches(&vec![1], &vec![1]), Ok(()));
    assert_eq!(hash_matches(&vec![1], &vec![2]), Err(AgentError::Integrity));
}

#[test]
fn config_base() {
    let mut c = empty_config();
    let b = ConfigBase::from_config(&c);
    assert_eq!(b.poll_period, 500);
    assert_eq!(b.bin_path, "/b");
    assert_eq!(b.ipc_dir, "/i");
    c.poll_period = -3;
    assert_eq!(ConfigBase::from_config(&c).poll_period, 0);
}

#[test]
fn ipc_requests_from_programs() {
    let mut c = empty_config();
    c.programs.push(point_manager::data_types::data_server::Program {
        id: 8,
        name: "logger".to_string(),
        keep_run: false,
        entry: "l".to_string(),
        args_after: None,
        args_before: None,
        is_indicate: false,
        ptype: point_manager::data_types::data_server::ProgramType::Builtin,
    });
    let mut sm = SendManager::new(0);
    let module = ModuleStatus { lstype: StatusCode::Warning, module: "m".to_string(), descr: "d".to_string() };
    let r = handle_request(RequestFromProgram::Log(Log { name: "logger".to_string(), level: 2, module }), &c, &mut sm, 5);
    assert_eq!(r, ResAnsw::Accepted);
    match &sm.queue[0].dtype {
        SendDataType::Log(l) => {
            assert_eq!(l.program_id, 8);
            assert_eq!(l.level, 2);
        }
        _ => panic!("log expected"),
    }
    let module = ModuleStatus { lstype: StatusCode::Warning, module: "m".to_string(), descr: "d".to_string() };
    handle_request(RequestFromProgram::Log(Log { name: "ghost".to_string(), level: 2, module }), &c, &mut sm, 6);
    assert_eq!(sm.queue.len(), 1);
    handle_request(RequestFromProgram::Stat(Stat { delay: 0, name: "cpu".to_string(), data: vec![1] }), &c, &mut sm, 7);
    assert_eq!(sm.queue.len(), 2);
    assert!(matches!(sm.queue[1].dtype, SendDataType::Stat(_)));
}

#[test]
fn ipc_targets() {
    let ipc = Ipc::new("/run/ipc");
    assert_eq!(ipc.format_ipc("p"), "/run/ipc/p");
    assert_eq!(ipc.terminate("p", true), ("/run/ipc/p".to_string(), RequestToProgram::Terminate(true)));
    assert_eq!(ipc.get_status("p"), ("/run/ipc/p".to_string(), RequestToProgram::GetStatus));
}
