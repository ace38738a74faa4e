use vstd::prelude::*;

use crate::data_types::data_server::{GetPointConfigAnsw as PointConfig, IpcType, Program, ProgramType, Report, ReportType};
use crate::events::{RunRequest, TerminateRequest};
use crate::sendm::{elapsed, elapsed_spec, enqueued, SendDataType, SendManager};
use crate::streamer::{Stream, StreamState};
use crate::utils::mos::{format_entry_dir, format_entry_path, joined, parent_of, split_args, split_spaces, string_views};

verus! {

/// Ticks a `Terminate` stays after the last request that refreshed it.
pub const CLEAR_CNT_MAX: i32 = 5;
/// Milliseconds between two name-based kills of a program without IPC.
pub const TERMINATE_CHECK_PERIOD: i64 = 5000;
/// Milliseconds between two IPC terminate requests to a program.
pub const TERMINATE_REQ_REPEAT_PERIOD: i64 = 5000;

/// Snapshot of a program descriptor, as the supervisor needs it.
pub struct Exec {
    pub pid: i32,
    pub keep_run: bool,
    pub name: String,
    pub ipc_type: Option<IpcType>,
    pub entry: String,
    pub args_before: Option<String>,
    pub args_after: Option<String>,
    pub is_custom: bool,
}

/// The program has a live child; `child` is its OS process id. The host
/// loop holds the process handle and its stdio under that id.
#[derive(PartialEq, Eq, Structural, Clone, Copy, Debug)]
pub struct Run {
    pub child: u32,
}

/// A pending request to stop the program.
#[derive(PartialEq, Eq, Structural, Clone, Copy, Debug)]
pub struct Terminate {
    pub hard: bool,
    pub tl_req: Option<i64>,
    pub clear_cnt: i32,
}

/// One supervised program with its optional components.
pub struct ExecEntity {
    pub ex: Exec,
    pub run: Option<Run>,
    pub terminate: Option<Terminate>,
    pub stream: Option<Stream>,
    pub stream_state: Option<StreamState>,
}

/// What the supervisor asks the host to do to stop a program.
pub enum TerminateAction {
    /// Send a terminate request over the program's local socket.
    Ipc { name: String, hard: bool, ipc_type: IpcType },
    /// Kill the processes that carry the program's name.
    Kill { name: String },
}

/// The exec snapshot of a program descriptor.
pub open spec fn exec_of(p: Program) -> Exec {
    Exec {
        pid: p.id,
        keep_run: p.keep_run,
        name: p.name,
        ipc_type: match p.ptype {
            ProgramType::Custom(c) => c.ipc_type,
            ProgramType::Builtin => None,
        },
        entry: p.entry,
        args_before: p.args_before,
        args_after: p.args_after,
        is_custom: p.ptype is Custom,
    }
}

fn clone_opt_string(o: &Option<String>) -> (r: Option<String>)
    ensures
        r == *o,
{
    match o {
        Some(s) => Some(s.clone()),
        None => None,
    }
}

/// One exec per program of the config, in order, with no component.
pub fn spawn_execs(config: &PointConfig) -> (r: Vec<ExecEntity>)
    ensures
        r@.len() == config.programs@.len(),
        forall|i: int| 0 <= i < r@.len() ==> {
            &&& r@[i].ex == exec_of(config.programs@[i])
            &&& r@[i].run is None
            &&& r@[i].terminate is None
            &&& r@[i].stream is None
            &&& r@[i].stream_state is None
        },
{
    let mut r: Vec<ExecEntity> = Vec::new();
    let mut i: usize = 0;
    while i < config.programs.len()
        invariant
            i <= config.programs@.len(),
            r@.len() == i,
            forall|k: int| 0 <= k < i ==> {
                &&& r@[k].ex == exec_of(config.programs@[k])
                &&& r@[k].run is None
                &&& r@[k].terminate is None
                &&& r@[k].stream is None
                &&& r@[k].stream_state is None
            },
        decreases config.programs@.len() - i,
    {
        let p = &config.programs[i];
        let ipc_type = match &p.ptype {
            ProgramType::Custom(c) => c.ipc_type,
            ProgramType::Builtin => None,
        };
        let ex = Exec {
            pid: p.id,
            keep_run: p.keep_run,
            name: p.name.clone(),
            ipc_type,
            entry: p.entry.clone(),
            args_before: clone_opt_string(&p.args_before),
            args_after: clone_opt_string(&p.args_after),
            is_custom: p.ptype.is_custom(),
        };
        r.push(ExecEntity { ex: ex, run: None, terminate: None, stream: None, stream_state: None });
        i = i + 1;
    }
    r
}

/// Some exec of program `pid` has a live child.
pub open spec fn is_run_spec(execs: Seq<ExecEntity>, pid: i32) -> bool {
    exists|i: int| 0 <= i < execs.len() && execs[i].ex.pid == pid && execs[i].run is Some
}

pub fn is_run(execs: &Vec<ExecEntity>, pid: i32) -> (r: bool)
    ensures
        r == is_run_spec(execs@, pid),
{
    let mut i: usize = 0;
    while i < execs.len()
        invariant
            i <= execs@.len(),
            forall|k: int| 0 <= k < i ==> !(execs@[k].ex.pid == pid && execs@[k].run is Some),
        decreases execs@.len() - i,
    {
        if execs[i].ex.pid == pid && execs[i].run.is_some() {
            return true;
        }
        i = i + 1;
    }
    false
}

/// Asks for program `pid` to stop, and tells whether it is already down.
pub fn terminate(execs: &Vec<ExecEntity>, evw: &mut Vec<TerminateRequest>, pid: i32, hard: bool) -> (r: bool)
    ensures
        final(evw)@ == old(evw)@.push(TerminateRequest { pid, hard }),
        r == !is_run_spec(execs@, pid),
{
    evw.push(TerminateRequest { pid, hard });
    !is_run(execs, pid)
}

/// The `Terminate` of program `pid` after request `ev`: attached when there
/// was none, otherwise refreshed, with `hard` latched.
pub open spec fn term_step(t: Option<Terminate>, ev: TerminateRequest, pid: i32) -> Option<Terminate> {
    if ev.pid != pid {
        t
    } else {
        match t {
            Some(t) => Some(Terminate { hard: t.hard || ev.hard, tl_req: t.tl_req, clear_cnt: 0 }),
            None => Some(Terminate { hard: ev.hard, tl_req: None, clear_cnt: 0 }),
        }
    }
}

/// The `Terminate` of program `pid` after the requests `evs`, in order.
pub open spec fn term_fold(t: Option<Terminate>, evs: Seq<TerminateRequest>, pid: i32) -> Option<Terminate>
    decreases evs.len(),
{
    if evs.len() == 0 {
        t
    } else {
        term_step(term_fold(t, evs.drop_last(), pid), evs.last(), pid)
    }
}

fn term_step_exec(t: Option<Terminate>, ev: TerminateRequest, pid: i32) -> (r: Option<Terminate>)
    ensures
        r == term_step(t, ev, pid),
{
    if ev.pid != pid {
        t
    } else {
        match t {
            Some(t) => Some(Terminate { hard: t.hard || ev.hard, tl_req: t.tl_req, clear_cnt: 0 }),
            None => Some(Terminate { hard: ev.hard, tl_req: None, clear_cnt: 0 }),
        }
    }
}

/// Attaches or refreshes `Terminate` on each exec named by a request.
pub fn terminate_adder(execs: &mut Vec<ExecEntity>, evs: &Vec<TerminateRequest>)
    ensures
        final(execs)@.len() == old(execs)@.len(),
        forall|i: int| 0 <= i < old(execs)@.len() ==> final(execs)@[i] == (ExecEntity {
            terminate: term_fold(old(execs)@[i].terminate, evs@, old(execs)@[i].ex.pid),
            ..old(execs)@[i]
        }),
{
    let mut i: usize = 0;
    while i < execs.len()
        invariant
            i <= execs@.len(),
            execs@.len() == old(execs)@.len(),
            forall|k: int| 0 <= k < i ==> execs@[k] == (ExecEntity {
                terminate: term_fold(old(execs)@[k].terminate, evs@, old(execs)@[k].ex.pid),
                ..old(execs)@[k]
            }),
            forall|k: int| i <= k < execs@.len() ==> execs@[k] == old(execs)@[k],
        decreases execs@.len() - i,
    {
        let e = execs.remove(i);
        let pid = e.ex.pid;
        let mut t = e.terminate;
        let mut k: usize = 0;
        while k < evs.len()
            invariant
                k <= evs@.len(),
                t == term_fold(e.terminate, evs@.subrange(0, k as int), pid),
            decreases evs@.len() - k,
        {
            assert(evs@.subrange(0, k as int + 1).drop_last() =~= evs@.subrange(0, k as int));
            t = term_step_exec(t, evs[k], pid);
            k = k + 1;
        }
        assert(evs@.subrange(0, evs@.len() as int) =~= evs@);
        execs.insert(i, ExecEntity { terminate: t, ..e });
        i = i + 1;
    }
}

/// `Terminate` after one more tick: retired once it has aged enough.
pub open spec fn cleaned(t: Option<Terminate>) -> Option<Terminate> {
    match t {
        Some(t) => if t.clear_cnt >= CLEAR_CNT_MAX {
            None
        } else {
            Some(Terminate { clear_cnt: (t.clear_cnt + 1) as i32, ..t })
        },
        None => None,
    }
}

/// Ages every `Terminate`, retiring those that reached `CLEAR_CNT_MAX`.
pub fn terminate_cleaner(execs: &mut Vec<ExecEntity>)
    ensures
        final(execs)@.len() == old(execs)@.len(),
        forall|i: int| 0 <= i < old(execs)@.len() ==> final(execs)@[i] == (ExecEntity {
            terminate: cleaned(old(execs)@[i].terminate),
            ..old(execs)@[i]
        }),
{
    let mut i: usize = 0;
    while i < execs.len()
        invariant
            i <= execs@.len(),
            execs@.len() == old(execs)@.len(),
            forall|k: int| 0 <= k < i ==> execs@[k] == (ExecEntity { terminate: cleaned(old(execs)@[k].terminate), ..old(execs)@[k] }),
            forall|k: int| i <= k < execs@.len() ==> execs@[k] == old(execs)@[k],
        decreases execs@.len() - i,
    {
        let e = execs.remove(i);
        let t = match e.terminate {
            Some(t) => if t.clear_cnt >= CLEAR_CNT_MAX {
                None
            } else {
                Some(Terminate { clear_cnt: t.clear_cnt + 1, ..t })
            },
            None => None,
        };
        execs.insert(i, ExecEntity { terminate: t, ..e });
        i = i + 1;
    }
}

/// Milliseconds between two stop attempts on `e`.
pub open spec fn repeat_period(e: Exec) -> i64 {
    if e.ipc_type is Some { TERMINATE_REQ_REPEAT_PERIOD } else { TERMINATE_CHECK_PERIOD }
}

/// A stop attempt on `e` is due at `now`: it runs, is asked to stop, and
/// was not tried within the repeat period.
pub open spec fn stop_due(e: ExecEntity, now: i64) -> bool {
    &&& e.run is Some
    &&& e.terminate is Some
    &&& match e.terminate->0.tl_req {
        Some(tl) => elapsed_spec(tl, now) >= repeat_period(e.ex),
        None => true,
    }
}

/// `a` is the stop attempt for `e`: over IPC, with the latched `hard`
/// flag, where the program speaks IPC; by name otherwise.
pub open spec fn stop_action_of(e: ExecEntity, a: TerminateAction) -> bool {
    match e.ex.ipc_type {
        Some(it) => a matches TerminateAction::Ipc { name, hard, ipc_type }
            && name@ == e.ex.name@ && hard == e.terminate->0.hard && ipc_type == it,
        None => a matches TerminateAction::Kill { name } && name@ == e.ex.name@,
    }
}

/// For each exec: the stop attempt due at `now`, if any, which is then
/// stamped with `now`.
pub fn terminator(execs: &mut Vec<ExecEntity>, now: i64) -> (r: Vec<Option<TerminateAction>>)
    ensures
        final(execs)@.len() == old(execs)@.len(),
        r@.len() == old(execs)@.len(),
        forall|i: int| #![trigger old(execs)@[i]] 0 <= i < old(execs)@.len() ==> {
            let o = old(execs)@[i];
            if stop_due(o, now) {
                &&& r@[i] is Some && stop_action_of(o, r@[i]->0)
                &&& final(execs)@[i] == (ExecEntity {
                    terminate: Some(Terminate { tl_req: Some(now), ..o.terminate->0 }),
                    ..o
                })
            } else {
                r@[i] is None && final(execs)@[i] == o
            }
        },
{
    let mut r: Vec<Option<TerminateAction>> = Vec::new();
    let mut i: usize = 0;
    while i < execs.len()
        invariant
            i <= execs@.len(),
            execs@.len() == old(execs)@.len(),
            r@.len() == i,
            forall|k: int| #![trigger old(execs)@[k]] 0 <= k < i ==> {
                let o = old(execs)@[k];
                if stop_due(o, now) {
                    &&& r@[k] is Some && stop_action_of(o, r@[k]->0)
                    &&& execs@[k] == (ExecEntity {
                        terminate: Some(Terminate { tl_req: Some(now), ..o.terminate->0 }),
                        ..o
                    })
                } else {
                    r@[k] is None && execs@[k] == o
                }
            },
            forall|k: int| i <= k < execs@.len() ==> execs@[k] == old(execs)@[k],
        decreases execs@.len() - i,
    {
        let e = execs.remove(i);
        if e.run.is_some() && e.terminate.is_some() {
            let t = e.terminate.unwrap();
            let period = match e.ex.ipc_type {
                Some(_) => TERMINATE_REQ_REPEAT_PERIOD,
                None => TERMINATE_CHECK_PERIOD,
            };
            let due = match t.tl_req {
                Some(tl) => elapsed(tl, now) >= period,
                None => true,
            };
            if due {
                let a = match e.ex.ipc_type {
                    Some(it) => TerminateAction::Ipc { name: e.ex.name.clone(), hard: t.hard, ipc_type: it },
                    None => TerminateAction::Kill { name: e.ex.name.clone() },
                };
                r.push(Some(a));
                execs.insert(i, ExecEntity { terminate: Some(Terminate { tl_req: Some(now), ..t }), ..e });
            } else {
                r.push(None);
                execs.insert(i, e);
            }
        } else {
            r.push(None);
            execs.insert(i, e);
        }
        i = i + 1;
    }
    r
}

/// Programs whose child was seen to exit: execs with `Run` whose flag in
/// `exited` is set, in order.
pub open spec fn stopped_pids(execs: Seq<ExecEntity>, exited: Seq<bool>) -> Seq<i32>
    decreases execs.len(),
{
    if execs.len() == 0 {
        Seq::empty()
    } else {
        let rest = stopped_pids(execs.drop_last(), exited.subrange(0, execs.len() - 1));
        if execs.last().run is Some && exited[execs.len() - 1] {
            rest.push(execs.last().ex.pid)
        } else {
            rest
        }
    }
}

/// Detaches `Run` from each exec whose child has exited (`exited[i]`, as
/// the host observed it) and reports `StopProgram` for each at `now`.
pub fn run_checker(execs: &mut Vec<ExecEntity>, exited: &Vec<bool>, sm: &mut SendManager, now: i64)
    requires
        exited@.len() == old(execs)@.len(),
        old(sm).wf(),
    ensures
        final(sm).wf(),
        final(execs)@.len() == old(execs)@.len(),
        forall|i: int| #![trigger old(execs)@[i]] 0 <= i < old(execs)@.len() ==> final(execs)@[i] == if old(execs)@[i].run is Some && exited@[i] {
            ExecEntity { run: None, ..old(execs)@[i] }
        } else {
            old(execs)@[i]
        },
        (final(sm).queue@, final(sm).spill@) == crate::sendm::enqueue_all(
            (old(sm).queue@, old(sm).spill@),
            crate::sendm::reports_for(ReportType::StopProgram, stopped_pids(old(execs)@, exited@)),
            now,
        ),
{
    let mut stopped: Vec<i32> = Vec::new();
    let mut i: usize = 0;
    while i < execs.len()
        invariant
            i <= execs@.len(),
            execs@.len() == old(execs)@.len(),
            exited@.len() == old(execs)@.len(),
            forall|k: int| #![trigger old(execs)@[k]] 0 <= k < i ==> execs@[k] == if old(execs)@[k].run is Some && exited@[k] {
                ExecEntity { run: None, ..old(execs)@[k] }
            } else {
                old(execs)@[k]
            },
            forall|k: int| i <= k < execs@.len() ==> execs@[k] == old(execs)@[k],
            stopped@ == stopped_pids(old(execs)@.subrange(0, i as int), exited@.subrange(0, i as int)),
        decreases execs@.len() - i,
    {
        proof {
            let nx = old(execs)@.subrange(0, i as int + 1);
            assert(nx.drop_last() =~= old(execs)@.subrange(0, i as int));
            assert(exited@.subrange(0, i as int + 1).subrange(0, i as int) =~= exited@.subrange(0, i as int));
        }
        let e = execs.remove(i);
        if e.run.is_some() && exited[i] {
            stopped.push(e.ex.pid);
            execs.insert(i, ExecEntity { run: None, ..e });
        } else {
            execs.insert(i, e);
        }
        i = i + 1;
    }
    assert(old(execs)@.subrange(0, old(execs)@.len() as int) =~= old(execs)@);
    assert(exited@.subrange(0, exited@.len() as int) =~= exited@);
    sm.report_each(ReportType::StopProgram, &stopped, now);
}

/// The exec may be started: it has neither `Run` nor `Terminate`, and keeps
/// running or is the target of a run request.
pub open spec fn runnable(e: ExecEntity, reqs: Seq<RunRequest>) -> bool {
    &&& e.run is None
    &&& e.terminate is None
    &&& (e.ex.keep_run || exists|k: int| 0 <= k < reqs.len() && reqs[k].0 == e.ex.pid)
}

/// `r` is the runner's pick: the first exec that may be started, if any.
pub open spec fn picked(execs: Seq<ExecEntity>, reqs: Seq<RunRequest>, r: Option<usize>) -> bool {
    &&& (r is None <==> forall|i: int| 0 <= i < execs.len() ==> !runnable(#[trigger] execs[i], reqs))
    &&& (r is Some ==> {
        &&& r->0 < execs.len()
        &&& runnable(execs[r->0 as int], reqs)
        &&& forall|k: int| 0 <= k < r->0 ==> !runnable(#[trigger] execs[k], reqs)
    })
}

/// Picks the first exec that may be started, if any: at most one per tick.
pub fn runner(execs: &Vec<ExecEntity>, reqs: &Vec<RunRequest>) -> (r: Option<usize>)
    ensures
        picked(execs@, reqs@, r),
{
    let mut i: usize = 0;
    while i < execs.len()
        invariant
            i <= execs@.len(),
            forall|k: int| 0 <= k < i ==> !runnable(#[trigger] execs@[k], reqs@),
        decreases execs@.len() - i,
    {
        let e = &execs[i];
        if e.run.is_none() && e.terminate.is_none() {
            if e.ex.keep_run {
                return Some(i);
            }
            let mut k: usize = 0;
            while k < reqs.len()
                invariant
                    i < execs@.len(),
                    e == execs@[i as int],
                    e.run is None && e.terminate is None,
                    forall|j: int| 0 <= j < i ==> !runnable(#[trigger] execs@[j], reqs@),
                    k <= reqs@.len(),
                    forall|j: int| 0 <= j < k ==> reqs@[j].0 != e.ex.pid,
                decreases reqs@.len() - k,
            {
                if reqs[k].0 == e.ex.pid {
                    assert(runnable(execs@[i as int], reqs@));
                    return Some(i);
                }
                k = k + 1;
            }
        }
        i = i + 1;
    }
    None
}

/// Takes the outcome of spawning exec `i`: on success (`child` is the new
/// process id) attaches `Run` and reports `StartProgram` at `now`; on
/// failure changes nothing, so the exec stays eligible for a later tick.
pub fn attach_run(execs: &mut Vec<ExecEntity>, i: usize, child: Option<u32>, sm: &mut SendManager, now: i64)
    requires
        i < old(execs)@.len(),
        old(sm).wf(),
    ensures
        final(sm).wf(),
        match child {
            Some(c) => {
                &&& final(execs)@ == old(execs)@.update(i as int, ExecEntity { run: Some(Run { child: c }), ..old(execs)@[i as int] })
                &&& enqueued(*old(sm), *final(sm), SendDataType::Report(Report {
                    delay: 0,
                    rtype: ReportType::StartProgram,
                    program_id: Some(old(execs)@[i as int].ex.pid),
                    descr: None,
                }), now)
            },
            None => final(execs)@ == old(execs)@ && *final(sm) == *old(sm),
        },
{
    match child {
        Some(c) => {
            let e = execs.remove(i);
            let pid = e.ex.pid;
            execs.insert(i, ExecEntity { run: Some(Run { child: c }), ..e });
            assert(execs@ =~= old(execs)@.update(i as int, ExecEntity { run: Some(Run { child: c }), ..old(execs)@[i as int] }));
            sm.report_at(Report { delay: 0, rtype: ReportType::StartProgram, program_id: Some(pid), descr: None }, now);
        },
        None => {},
    }
}

/// The path the child is started from: under `bin_path/name` for a custom
/// program, the entry as written for a builtin one.
pub open spec fn resolved_entry(e: Exec, bin_path: Seq<char>) -> Seq<char> {
    if e.is_custom {
        joined(joined(bin_path, e.name@), e.entry@)
    } else {
        e.entry@
    }
}

pub open spec fn opt_args(a: Option<String>) -> Seq<Seq<char>> {
    match a {
        Some(s) => split_spaces(s@),
        None => Seq::empty(),
    }
}

/// The command line of `e`: `args_before`, the resolved entry, `args_after`.
pub open spec fn command_line_spec(e: Exec, bin_path: Seq<char>) -> Seq<Seq<char>> {
    opt_args(e.args_before) + seq![resolved_entry(e, bin_path)] + opt_args(e.args_after)
}

fn opt_split(a: &Option<String>) -> (r: Vec<String>)
    ensures
        string_views(r@) == opt_args(*a),
{
    match a {
        Some(s) => split_args(s.as_str()),
        None => {
            let v: Vec<String> = Vec::new();
            assert(string_views(v@) =~= Seq::<Seq<char>>::empty());
            v
        },
    }
}

/// Program and arguments to start `ex` with; the first item is the program.
pub fn command_line(ex: &Exec, bin_path: &str) -> (r: Vec<String>)
    ensures
        string_views(r@) == command_line_spec(*ex, bin_path@),
        r@.len() >= 1,
{
    let mut r = opt_split(&ex.args_before);
    let ghost before = r@;
    let entry = if ex.is_custom {
        format_entry_path(ex.name.as_str(), ex.entry.as_str(), bin_path)
    } else {
        ex.entry.clone()
    };
    r.push(entry);
    let mut after = opt_split(&ex.args_after);
    let ghost aft = after@;
    r.append(&mut after);
    assert(string_views(r@) =~= string_views(before) + seq![resolved_entry(*ex, bin_path@)] + string_views(aft));
    r
}

/// Working directory of the child: the entry's directory for a custom
/// program; none is set for a builtin one.
pub fn working_dir(ex: &Exec, bin_path: &str) -> (r: Option<String>)
    ensures
        ex.is_custom ==> r is Some && r->0@ == parent_of(resolved_entry(*ex, bin_path@)),
        !ex.is_custom ==> r is None,
{
    if ex.is_custom {
        Some(format_entry_dir(ex.name.as_str(), ex.entry.as_str(), bin_path))
    } else {
        None
    }
}

/// A soft stop request followed by a hard one leave a single pending stop,
/// and it is hard, whether or not one was pending before.
pub proof fn lemma_terminate_requests_collapse(t: Option<Terminate>, pid: i32)
    ensures
        term_fold(t, seq![TerminateRequest { pid, hard: false }, TerminateRequest { pid, hard: true }], pid)
            matches Some(r) && r.hard && r.clear_cnt == 0,
{
    let evs = seq![TerminateRequest { pid, hard: false }, TerminateRequest { pid, hard: true }];
    assert(evs.drop_last() =~= seq![TerminateRequest { pid, hard: false }]);
    assert(evs.drop_last().drop_last() =~= Seq::<TerminateRequest>::empty());
}

/// The same two requests, handed to the supervisor on two successive ticks,
/// end the same way.
pub proof fn lemma_terminate_requests_collapse_across_ticks(t: Option<Terminate>, pid: i32)
    ensures
        term_fold(
            term_fold(t, seq![TerminateRequest { pid, hard: false }], pid),
            seq![TerminateRequest { pid, hard: true }],
            pid,
        ) matches Some(r) && r.hard && r.clear_cnt == 0,
{
    assert(seq![TerminateRequest { pid, hard: false }].drop_last() =~= Seq::<TerminateRequest>::empty());
    assert(seq![TerminateRequest { pid, hard: true }].drop_last() =~= Seq::<TerminateRequest>::empty());
}

/// A program that keeps running, has neither a child nor a pending stop,
/// and has no such exec ahead of it, is the one the runner starts this
/// tick; with any such exec ahead of it, the runner still starts one.
pub proof fn lemma_keep_run_is_restarted(execs: Seq<ExecEntity>, reqs: Seq<RunRequest>, i: int, r: Option<usize>)
    requires
        0 <= i < execs.len(),
        execs[i].ex.keep_run,
        execs[i].run is None,
        execs[i].terminate is None,
        picked(execs, reqs, r),
    ensures
        r is Some,
        r->0 <= i,
        (forall|k: int| 0 <= k < i ==> !runnable(#[trigger] execs[k], reqs)) ==> r == Some(i as usize),
{
    assert(runnable(execs[i], reqs));
    if r->0 > i {
        assert(!runnable(execs[i], reqs));
    }
    if forall|k: int| 0 <= k < i ==> !runnable(#[trigger] execs[k], reqs) {
        if (r->0 as int) < i {
            assert(!runnable(execs[r->0 as int], reqs));
        }
    }
}

/// After the run check, every exec that still holds `Run` held it before
/// and its child was not seen to exit: `Run` stands for a live child.
pub proof fn lemma_run_means_live(o: Seq<ExecEntity>, exited: Seq<bool>, n: Seq<ExecEntity>)
    requires
        exited.len() == o.len(),
        n.len() == o.len(),
        forall|i: int| #![trigger o[i]] 0 <= i < o.len() ==> n[i] == if o[i].run is Some && exited[i] {
            ExecEntity { run: None, ..o[i] }
        } else {
            o[i]
        },
    ensures
        forall|i: int| 0 <= i < n.len() && (#[trigger] n[i]).run is Some ==> o[i].run == n[i].run && !exited[i],
{
    assert forall|i: int| 0 <= i < n.len() && (#[trigger] n[i]).run is Some implies o[i].run == n[i].run && !exited[i] by {
        assert(n[i] == if o[i].run is Some && exited[i] { ExecEntity { run: None, ..o[i] } } else { o[i] });
    }
}

} // verus!
