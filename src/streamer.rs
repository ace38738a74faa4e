use vstd::prelude::*;

use crate::events::RunRequest;
use crate::execm::ExecEntity;

verus! {

/// A remote consumer attached to a program's stdio. `tcp` is the handle of
/// the stream socket held by the host loop.
#[derive(PartialEq, Eq, Structural, Clone, Copy, Debug)]
pub struct Stream {
    pub stream_id: i32,
    pub program_id: i32,
    pub tcp: u64,
}

/// Waiting for the program to run, or pumping bytes.
#[derive(PartialEq, Eq, Structural, Clone, Copy, Debug)]
pub enum StreamState {
    Run,
    Transfer,
}

/// The first exec of program `ev.program_id` without a stream, if any.
pub fn stream_adder(execs: &Vec<ExecEntity>, ev: &crate::events::Stream) -> (r: Option<usize>)
    ensures
        r is None <==> forall|i: int| 0 <= i < execs@.len() ==> !((#[trigger] execs@[i]).ex.pid == ev.program_id && execs@[i].stream is None),
        r is Some ==> {
            &&& r->0 < execs@.len()
            &&& execs@[r->0 as int].ex.pid == ev.program_id
            &&& execs@[r->0 as int].stream is None
            &&& forall|k: int| 0 <= k < r->0 ==> !((#[trigger] execs@[k]).ex.pid == ev.program_id && execs@[k].stream is None)
        },
{
    let mut i: usize = 0;
    while i < execs.len()
        invariant
            i <= execs@.len(),
            forall|k: int| 0 <= k < i ==> !((#[trigger] execs@[k]).ex.pid == ev.program_id && execs@[k].stream is None),
        decreases execs@.len() - i,
    {
        if execs[i].ex.pid == ev.program_id && execs[i].stream.is_none() {
            return Some(i);
        }
        i = i + 1;
    }
    None
}

/// Attaches a connected stream to exec `i`; it waits in `Run` for the
/// program to run.
pub fn attach_stream(execs: &mut Vec<ExecEntity>, i: usize, s: Stream)
    requires
        i < old(execs)@.len(),
    ensures
        final(execs)@ == old(execs)@.update(i as int, ExecEntity {
            stream: Some(s),
            stream_state: Some(StreamState::Run),
            ..old(execs)@[i as int]
        }),
{
    let e = execs.remove(i);
    execs.insert(i, ExecEntity { stream: Some(s), stream_state: Some(StreamState::Run), ..e });
    assert(execs@ =~= old(execs)@.update(i as int, ExecEntity { stream: Some(s), stream_state: Some(StreamState::Run), ..old(execs)@[i as int] }));
}

/// A stream waiting in `Run` starts to transfer once its program runs.
pub open spec fn after_stream_run(e: ExecEntity) -> ExecEntity {
    if e.stream_state == Some(StreamState::Run) && e.run is Some {
        ExecEntity { stream_state: Some(StreamState::Transfer), ..e }
    } else {
        e
    }
}

/// Run requests for the programs a stream waits on, in order.
pub open spec fn stream_run_requests(execs: Seq<ExecEntity>) -> Seq<RunRequest>
    decreases execs.len(),
{
    if execs.len() == 0 {
        Seq::empty()
    } else {
        let rest = stream_run_requests(execs.drop_last());
        if execs.last().stream_state == Some(StreamState::Run) && execs.last().run is None {
            rest.push(RunRequest(execs.last().ex.pid))
        } else {
            rest
        }
    }
}

/// Moves each waiting stream whose program runs to `Transfer`, and asks
/// the supervisor to start the programs the others wait on.
pub fn stream_runner(execs: &mut Vec<ExecEntity>, evw: &mut Vec<RunRequest>)
    ensures
        final(execs)@.len() == old(execs)@.len(),
        forall|i: int| 0 <= i < old(execs)@.len() ==> final(execs)@[i] == after_stream_run(#[trigger] old(execs)@[i]),
        final(evw)@ == old(evw)@ + stream_run_requests(old(execs)@),
{
    let mut i: usize = 0;
    assert(old(execs)@.subrange(0, 0) =~= Seq::<ExecEntity>::empty());
    assert(evw@ =~= old(evw)@ + stream_run_requests(old(execs)@.subrange(0, 0)));
    while i < execs.len()
        invariant
            i <= execs@.len(),
            execs@.len() == old(execs)@.len(),
            forall|k: int| 0 <= k < i ==> execs@[k] == after_stream_run(#[trigger] old(execs)@[k]),
            forall|k: int| i <= k < execs@.len() ==> execs@[k] == old(execs)@[k],
            evw@ == old(evw)@ + stream_run_requests(old(execs)@.subrange(0, i as int)),
        decreases execs@.len() - i,
    {
        assert(old(execs)@.subrange(0, i as int + 1).drop_last() =~= old(execs)@.subrange(0, i as int));
        if execs[i].stream_state == Some(StreamState::Run) {
            if execs[i].run.is_some() {
                let e = execs.remove(i);
                execs.insert(i, ExecEntity { stream_state: Some(StreamState::Transfer), ..e });
            } else {
                evw.push(RunRequest(execs[i].ex.pid));
            }
        }
        assert(evw@ =~= old(evw)@ + stream_run_requests(old(execs)@.subrange(0, i as int + 1)));
        i = i + 1;
    }
    assert(old(execs)@.subrange(0, old(execs)@.len() as int) =~= old(execs)@);
}

/// What a non-blocking read of the child's stdout channel gave.
#[derive(PartialEq, Eq, Structural, Clone, Copy, Debug)]
pub enum StdoutPoll {
    Data,
    Empty,
    /// The drain worker is gone: the child's stdout closed.
    Disconnected,
    /// The child has no stdout channel.
    NoChannel,
}

/// What writing to the socket gave.
#[derive(PartialEq, Eq, Structural, Clone, Copy, Debug)]
pub enum WriteOutcome {
    Written,
    WouldBlock,
    Failed,
    /// Nothing was to be written.
    Idle,
}

/// What a non-blocking read of the socket gave.
#[derive(PartialEq, Eq, Structural, Clone, Copy, Debug)]
pub enum ReadOutcome {
    Data,
    Eof,
    WouldBlock,
    Failed,
}

/// One tick of pumping for one stream.
#[derive(PartialEq, Eq, Structural, Clone, Copy, Debug)]
pub struct TransferOutcome {
    pub stdout: StdoutPoll,
    pub write: WriteOutcome,
    pub read: ReadOutcome,
}

/// The stream is over: the child's output ended, or the socket failed or
/// reached its end.
pub open spec fn disconnects(o: TransferOutcome) -> bool {
    o.stdout == StdoutPoll::Disconnected || o.stdout == StdoutPoll::NoChannel || o.write == WriteOutcome::Failed
        || o.read == ReadOutcome::Eof || o.read == ReadOutcome::Failed
}

pub fn should_disconnect(o: TransferOutcome) -> (r: bool)
    ensures
        r == disconnects(o),
{
    o.stdout == StdoutPoll::Disconnected || o.stdout == StdoutPoll::NoChannel || o.write == WriteOutcome::Failed
        || o.read == ReadOutcome::Eof || o.read == ReadOutcome::Failed
}

/// The exec without its stream.
pub open spec fn detached(e: ExecEntity) -> ExecEntity {
    ExecEntity { stream: None, stream_state: None, ..e }
}

/// A transferring exec after this tick's pumping, `o` being what the
/// pumping gave (`None` when nothing was pumped for it).
pub open spec fn after_transfer(e: ExecEntity, o: Option<TransferOutcome>) -> ExecEntity {
    match o {
        Some(o) => if e.stream_state == Some(StreamState::Transfer) && disconnects(o) { detached(e) } else { e },
        None => e,
    }
}

/// Takes what pumping gave for each exec and strips the streams that ended.
pub fn sys_transfer(execs: &mut Vec<ExecEntity>, outcomes: &Vec<Option<TransferOutcome>>)
    requires
        outcomes@.len() == old(execs)@.len(),
    ensures
        final(execs)@.len() == old(execs)@.len(),
        forall|i: int| 0 <= i < old(execs)@.len() ==> final(execs)@[i] == after_transfer(#[trigger] old(execs)@[i], outcomes@[i]),
{
    let mut i: usize = 0;
    while i < execs.len()
        invariant
            i <= execs@.len(),
            execs@.len() == old(execs)@.len(),
            outcomes@.len() == old(execs)@.len(),
            forall|k: int| 0 <= k < i ==> execs@[k] == after_transfer(#[trigger] old(execs)@[k], outcomes@[k]),
            forall|k: int| i <= k < execs@.len() ==> execs@[k] == old(execs)@[k],
        decreases execs@.len() - i,
    {
        match outcomes[i] {
            Some(o) => {
                if execs[i].stream_state == Some(StreamState::Transfer) && should_disconnect(o) {
                    let e = execs.remove(i);
                    execs.insert(i, ExecEntity { stream: None, stream_state: None, ..e });
                }
            },
            None => {},
        }
        i = i + 1;
    }
}

/// A transferring stream whose program no longer runs is stripped.
pub open spec fn after_stream_check(e: ExecEntity) -> ExecEntity {
    if e.stream_state == Some(StreamState::Transfer) && e.run is None { detached(e) } else { e }
}

/// Strips the streams of the programs that died.
pub fn stream_terminator(execs: &mut Vec<ExecEntity>)
    ensures
        final(execs)@.len() == old(execs)@.len(),
        forall|i: int| 0 <= i < old(execs)@.len() ==> final(execs)@[i] == after_stream_check(#[trigger] old(execs)@[i]),
{
    let mut i: usize = 0;
    while i < execs.len()
        invariant
            i <= execs@.len(),
            execs@.len() == old(execs)@.len(),
            forall|k: int| 0 <= k < i ==> execs@[k] == after_stream_check(#[trigger] old(execs)@[k]),
            forall|k: int| i <= k < execs@.len() ==> execs@[k] == old(execs)@[k],
        decreases execs@.len() - i,
    {
        if execs[i].stream_state == Some(StreamState::Transfer) && execs[i].run.is_none() {
            let e = execs.remove(i);
            execs.insert(i, ExecEntity { stream: None, stream_state: None, ..e });
        }
        i = i + 1;
    }
}

/// A transferring stream whose socket reached its end is gone after that
/// tick's transfer step.
pub proof fn lemma_eof_removes_stream(e: ExecEntity, o: TransferOutcome)
    requires
        e.stream_state == Some(StreamState::Transfer),
        o.read == ReadOutcome::Eof,
    ensures
        after_transfer(e, Some(o)).stream is None,
        after_transfer(e, Some(o)).stream_state is None,
{
}

} // verus!
