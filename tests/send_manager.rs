use point_manager::data_types::data_server::{Log, ModuleStatus, Report, ReportType, Stat, StatusCode};
use point_manager::sendm::{elapsed, select_oldest, SendDataType, SendManager, MAX_SEND_QUEUE};

fn report(rtype: ReportType, pid: i32) -> Report {
    Report { delay: 0, rtype, program_id: Some(pid), descr: None }
}

fn stat(name: &str) -> Stat {
    Stat { delay: 0, name: name.to_string(), data: vec![1, 2] }
}

fn log(pid: i32) -> Log {
    Log {
        program_id: pid,
        delay: 0,
        level: 1,
        module: ModuleStatus { lstype: StatusCode::Normal, module: "m".to_string(), descr: "d".to_string() },
    }
}

#[test]
fn enqueue_keeps_fifo_order_and_time() {
    let mut sm = SendManager::new(0);
    sm.report_at(report(ReportType::Reboot, 1), 100);
    sm.stat_at(stat("cpu"), 200);
    sm.log_at(log(2), 300);
    assert_eq!(sm.queue.len(), 3);
    assert_eq!(sm.queue[0].dt, 100);
    assert_eq!(sm.queue[1].dt, 200);
    assert_eq!(sm.queue[2].dt, 300);
    assert!(matches!(sm.queue[2].dtype, SendDataType::Log(_)));
}

#[test]
fn overflow_spills_must_have_and_drops_logs() {
    let mut sm = SendManager::new(0);
    for i in 0..MAX_SEND_QUEUE {
        sm.report_at(report(ReportType::StartProgram, i as i32), i as i64);
    }
    assert_eq!(sm.queue.len(), MAX_SEND_QUEUE);
    sm.stat_at(stat("late"), 1000);
    sm.log_at(log(1), 1001);
    assert_eq!(sm.queue.len(), MAX_SEND_QUEUE);
    assert_eq!(sm.spill.len(), 1);
    assert_eq!(sm.spill[0].dt, 1000);
    assert!(matches!(sm.spill[0].dtype, SendDataType::Stat(_)));
}

#[test]
fn delivered_report_carries_its_age() {
    let mut sm = SendManager::new(0);
    sm.report_at(Report { delay: 0, rtype: ReportType::BuildUpdate, program_id: Some(3), descr: Some("x".to_string()) }, 1_000);
    assert!(sm.prepare_send(4_500));
    match &sm.queue[0].dtype {
        SendDataType::Report(r) => {
            assert_eq!(r.delay, 3_500);
            assert_eq!(r.rtype, ReportType::BuildUpdate);
            assert_eq!(r.program_id, Some(3));
            assert_eq!(r.descr, Some("x".to_string()));
        }
        _ => panic!("report expected"),
    }
    sm.send_done(true, 4_500);
    assert!(sm.queue.is_empty());
}

#[test]
fn failed_send_keeps_head_and_waits() {
    let mut sm = SendManager::new(0);
    sm.report_at(report(ReportType::Reboot, 1), 10);
    sm.stat_at(stat("b"), 20);
    sm.log_at(log(3), 30);
    assert!(sm.prepare_send(5_000));
    sm.send_done(false, 5_000);
    assert_eq!(sm.queue.len(), 3);
    assert_eq!(sm.tl_try_send, 5_000);
    assert!(!sm.prepare_send(6_000));
    assert!(sm.prepare_send(7_000));
}

#[test]
fn failed_log_send_is_not_retried() {
    let mut sm = SendManager::new(0);
    sm.log_at(log(3), 30);
    assert!(sm.prepare_send(5_000));
    sm.send_done(false, 5_000);
    assert!(sm.queue.is_empty());
}

#[test]
fn nothing_sent_before_period() {
    let mut sm = SendManager::new(1_000);
    sm.report_at(report(ReportType::Reboot, 1), 1_000);
    assert!(!sm.prepare_send(2_000));
    assert!(sm.prepare_send(3_000));
}

#[test]
fn shutdown_spills_must_have_and_drops_logs() {
    let mut sm = SendManager::new(0);
    sm.report_at(report(ReportType::StopProgram, 1), 11);
    sm.stat_at(stat("b"), 12);
    sm.log_at(log(1), 13);
    assert!(!sm.disk_step(true, 100));
    assert!(sm.queue.is_empty());
    let spilled = sm.take_spilled();
    assert_eq!(spilled.len(), 2);
    assert_eq!(spilled[0].dt, 11);
    assert_eq!(spilled[1].dt, 12);
    assert!(sm.spill.is_empty());
}

#[test]
fn disk_check_loads_only_when_idle_and_due() {
    let mut sm = SendManager::new(0);
    assert!(!sm.disk_step(false, 5_000));
    assert!(sm.disk_step(false, 10_000));
    assert_eq!(sm.tl_disk_check, 10_000);
    sm.push_loaded(7, SendDataType::Report(report(ReportType::Reboot, 1)));
    assert!(!sm.disk_step(false, 20_000));
    assert_eq!(sm.queue[0].dt, 7);
}

#[test]
fn spilled_items_come_back_oldest_first() {
    let mut dir: Vec<i64> = vec![300, 100, 200];
    let mut order = Vec::new();
    while let Some(i) = select_oldest(&dir) {
        order.push(dir.remove(i));
    }
    assert_eq!(order, vec![100, 200, 300]);
    assert_eq!(select_oldest(&vec![5, 2, 2]), Some(1));
    assert_eq!(select_oldest(&vec![]), None);
}

#[test]
fn restart_reloads_spill_in_timestamp_order() {
    let mut sm = SendManager::new(0);
    sm.report_at(report(ReportType::Reboot, 1), 50);
    sm.stat_at(stat("b"), 40);
    sm.disk_step(true, 60);
    let mut disk: Vec<(i64, SendDataType)> = sm.take_spilled().into_iter().map(|d| (d.dt, d.dtype)).collect();
    let mut fresh = SendManager::new(0);
    let mut loaded = Vec::new();
    let mut now = 10_000;
    while !disk.is_empty() {
        if fresh.disk_step(false, now) {
            let ids: Vec<i64> = disk.iter().map(|d| d.0).collect();
            let i = select_oldest(&ids).unwrap();
            let (dt, dtype) = disk.remove(i);
            fresh.push_loaded(dt, dtype);
            assert!(fresh.prepare_send(now));
            loaded.push(fresh.queue[0].dt);
            fresh.send_done(true, now);
        }
        now += 10_000;
    }
    assert_eq!(loaded, vec![40, 50]);
}

#[test]
fn report_each_enqueues_in_order() {
    let mut sm = SendManager::new(0);
    sm.report_each(ReportType::StopProgram, &vec![4, 5], 9);
    assert_eq!(sm.queue.len(), 2);
    match (&sm.queue[0].dtype, &sm.queue[1].dtype) {
        (SendDataType::Report(a), SendDataType::Report(b)) => {
            assert_eq!(a.program_id, Some(4));
            assert_eq!(b.program_id, Some(5));
            assert_eq!(a.rtype, ReportType::StopProgram);
        }
        _ => panic!("reports expected"),
    }
}

#[test]
fn elapsed_clamps() {
    assert_eq!(elapsed(100, 350), 250);
    assert_eq!(elapsed(350, 100), -250);
    assert_eq!(elapsed(i64::MIN, i64::MAX), i64::MAX);
}

#[test]
fn current_time_enqueue() {
    let mut sm = SendManager::default();
    sm.report(report(ReportType::Reboot, 1));
    assert_eq!(sm.queue.len(), 1);
    assert!(sm.queue[0].dt > 1_500_000_000_000);
}

#[test]
fn network_outage_mid_queue() {
    let mut sm = SendManager::new(0);
    sm.report_at(report(ReportType::InternalError, 1), 100);
    sm.stat_at(stat("b"), 200);
    sm.log_at(log(1), 300);
    for t in [2_000i64, 4_000, 6_000] {
        if sm.prepare_send(t) {
            sm.send_done(false, t);
        }
        assert_eq!(sm.queue.len(), 3);
        assert_eq!(sm.queue[0].dt, 100);
    }
    assert!(!sm.disk_step(true, 7_000));
    let spilled = sm.take_spilled();
    let mut disk: Vec<(i64, SendDataType)> = spilled.into_iter().map(|d| (d.dt, d.dtype)).collect();
    assert_eq!(disk.iter().map(|d| d.0).collect::<Vec<_>>(), vec![100, 200]);
    let mut next = SendManager::new(0);
    let mut delivered = Vec::new();
    let mut t = 10_000;
    while !disk.is_empty() || !next.queue.is_empty() {
        if next.disk_step(false, t) {
            let ids: Vec<i64> = disk.iter().map(|d| d.0).collect();
            if let Some(i) = select_oldest(&ids) {
                let (dt, d) = disk.remove(i);
                next.push_loaded(dt, d);
            }
        }
        if next.prepare_send(t) {
            delivered.push(next.queue[0].dt);
            next.send_done(true, t);
        }
        t += 10_000;
    }
    assert_eq!(delivered, vec![100, 200]);
}
