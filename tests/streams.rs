use point_manager::events::{RunRequest, Stream as StreamEvent};
use point_manager::execm::{Exec, ExecEntity, Run};
use point_manager::streamer::{
    attach_stream, should_disconnect, stream_adder, stream_runner, stream_terminator, sys_transfer, ReadOutcome,
    StdoutPoll, Stream, StreamState, TransferOutcome, WriteOutcome,
};
use point_manager::data_types::stream_api::Request;

fn exec_entity(pid: i32) -> ExecEntity {
    ExecEntity {
        ex: Exec {
            pid,
            keep_run: false,
            name: "p".to_string(),
            ipc_type: None,
            entry: "bin/p".to_string(),
            args_before: None,
            args_after: None,
            is_custom: true,
        },
        run: None,
        terminate: None,
        stream: None,
        stream_state: None,
    }
}

fn outcome(read: ReadOutcome) -> TransferOutcome {
    TransferOutcome { stdout: StdoutPoll::Empty, write: WriteOutcome::Idle, read }
}

#[test]
fn stream_attach_to_stopped_program() {
    let mut execs = vec![exec_entity(2), exec_entity(4)];
    let ev = StreamEvent { id: 11, program_id: 4 };
    let i = stream_adder(&execs, &ev).unwrap();
    assert_eq!(i, 1);
    let hs = Request::attach(ev.id);
    assert_eq!(hs.id, 11);
    assert!(!hs.initiator);
    attach_stream(&mut execs, i, Stream { stream_id: 11, program_id: 4, tcp: 1 });
    assert_eq!(execs[1].stream_state, Some(StreamState::Run));
    assert!(stream_adder(&execs, &ev).is_none());
    let mut evw = Vec::new();
    stream_runner(&mut execs, &mut evw);
    assert_eq!(evw, vec![RunRequest(4)]);
    assert_eq!(execs[1].stream_state, Some(StreamState::Run));
    execs[1].run = Some(Run { child: 5 });
    let mut evw = Vec::new();
    stream_runner(&mut execs, &mut evw);
    assert!(evw.is_empty());
    assert_eq!(execs[1].stream_state, Some(StreamState::Transfer));
    sys_transfer(&mut execs, &vec![None, Some(outcome(ReadOutcome::Data))]);
    assert!(execs[1].stream.is_some());
}

#[test]
fn socket_eof_removes_stream() {
    let mut execs = vec![exec_entity(4)];
    execs[0].run = Some(Run { child: 5 });
    attach_stream(&mut execs, 0, Stream { stream_id: 1, program_id: 4, tcp: 1 });
    stream_runner(&mut execs, &mut Vec::new());
    sys_transfer(&mut execs, &vec![Some(outcome(ReadOutcome::Eof))]);
    assert!(execs[0].stream.is_none());
    assert!(execs[0].stream_state.is_none());
}

#[test]
fn disconnect_rules() {
    assert!(!should_disconnect(outcome(ReadOutcome::WouldBlock)));
    assert!(should_disconnect(outcome(ReadOutcome::Failed)));
    assert!(should_disconnect(TransferOutcome { stdout: StdoutPoll::Disconnected, write: WriteOutcome::Idle, read: ReadOutcome::WouldBlock }));
    assert!(!should_disconnect(TransferOutcome { stdout: StdoutPoll::Data, write: WriteOutcome::WouldBlock, read: ReadOutcome::WouldBlock }));
    assert!(should_disconnect(TransferOutcome { stdout: StdoutPoll::Data, write: WriteOutcome::Failed, read: ReadOutcome::WouldBlock }));
}

#[test]
fn dead_program_loses_stream() {
    let mut execs = vec![exec_entity(4)];
    execs[0].run = Some(Run { child: 5 });
    attach_stream(&mut execs, 0, Stream { stream_id: 1, program_id: 4, tcp: 1 });
    stream_runner(&mut execs, &mut Vec::new());
    stream_terminator(&mut execs);
    assert!(execs[0].stream.is_some());
    execs[0].run = None;
    stream_terminator(&mut execs);
    assert!(execs[0].stream.is_none());
}
