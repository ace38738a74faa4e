use vstd::prelude::*;

use crate::data_types::data_server::{Log, Report, ReportType, Stat};

verus! {

pub const MAX_SEND_QUEUE: usize = 25;
/// Milliseconds between two looks into the spill directory.
pub const DISK_CHECK_PERIOD: i64 = 10000;
/// Milliseconds to wait after a failed send before the next attempt.
pub const TRY_SEND_PERIOD: i64 = 2000;

/// Relies on chrono's `Utc::now` and `DateTime::timestamp_millis`: the wall
/// clock in milliseconds since the Unix epoch. Nothing is known of its value.
#[verifier::external_body]
pub(crate) fn now_millis() -> (r: i64) {
    chrono::Utc::now().timestamp_millis()
}

/// `x` clamped to the range of `i64`.
pub open spec fn clamp_i64(x: int) -> i64 {
    if x < i64::MIN {
        i64::MIN
    } else if x > i64::MAX {
        i64::MAX
    } else {
        x as i64
    }
}

/// Milliseconds from `from` to `to`, clamped to `i64`.
pub open spec fn elapsed_spec(from: i64, to: i64) -> i64 {
    clamp_i64(to - from)
}

pub fn elapsed(from: i64, to: i64) -> (r: i64)
    ensures
        r == elapsed_spec(from, to),
{
    let d: i128 = to as i128 - from as i128;
    if d < i64::MIN as i128 {
        i64::MIN
    } else if d > i64::MAX as i128 {
        i64::MAX
    } else {
        d as i64
    }
}

/// A payload for the control plane.
pub enum SendDataType {
    Report(Report),
    Stat(Stat),
    Log(Log),
}

/// The payload with its `delay` field set to `delay`.
pub open spec fn with_delay_spec(d: SendDataType, delay: i64) -> SendDataType {
    match d {
        SendDataType::Report(r) => SendDataType::Report(Report { delay, ..r }),
        SendDataType::Stat(s) => SendDataType::Stat(Stat { delay, ..s }),
        SendDataType::Log(l) => SendDataType::Log(Log { delay, ..l }),
    }
}

impl SendDataType {
    /// Reports and stats must survive a restart; logs are best effort.
    pub open spec fn must_have(&self) -> bool {
        !(self is Log)
    }

    pub fn is_necessary(&self) -> (r: bool)
        ensures
            r == self.must_have(),
    {
        match self {
            SendDataType::Report(_) => true,
            SendDataType::Stat(_) => true,
            SendDataType::Log(_) => false,
        }
    }

    pub fn with_delay(self, delay: i64) -> (r: SendDataType)
        ensures
            r == with_delay_spec(self, delay),
    {
        match self {
            SendDataType::Report(r) => SendDataType::Report(Report { delay, ..r }),
            SendDataType::Stat(s) => SendDataType::Stat(Stat { delay, ..s }),
            SendDataType::Log(l) => SendDataType::Log(Log { delay, ..l }),
        }
    }
}

/// A queued payload with the time it was enqueued, in Unix milliseconds.
pub struct SendData {
    pub dt: i64,
    pub dtype: SendDataType,
}

/// Number of must-have items in `s`.
pub open spec fn must_have_count(s: Seq<SendData>) -> nat
    decreases s.len(),
{
    if s.len() == 0 {
        0
    } else {
        must_have_count(s.drop_last()) + if s.last().dtype.must_have() { 1nat } else { 0nat }
    }
}

pub proof fn lemma_must_have_count_push(s: Seq<SendData>, x: SendData)
    ensures
        must_have_count(s.push(x)) == must_have_count(s) + if x.dtype.must_have() { 1nat } else { 0nat },
{
    assert(s.push(x).drop_last() =~= s);
}

pub proof fn lemma_must_have_count_drop_first(s: Seq<SendData>)
    requires
        s.len() > 0,
    ensures
        must_have_count(s) == must_have_count(s.drop_first()) + if s[0].dtype.must_have() { 1nat } else { 0nat },
    decreases s.len(),
{
    if s.len() > 1 {
        lemma_must_have_count_drop_first(s.drop_last());
        assert(s.drop_last().drop_first() =~= s.drop_first().drop_last());
    } else {
        assert(s.drop_first() =~= Seq::<SendData>::empty());
        assert(s.drop_last() =~= Seq::<SendData>::empty());
    }
}

/// Queue and spill list after `item` was handed in at `now`.
pub open spec fn enqueue_step(qs: (Seq<SendData>, Seq<SendData>), item: SendDataType, now: i64) -> (Seq<SendData>, Seq<SendData>) {
    if qs.0.len() < MAX_SEND_QUEUE {
        (qs.0.push(SendData { dt: now, dtype: item }), qs.1)
    } else if item.must_have() {
        (qs.0, qs.1.push(SendData { dt: now, dtype: item }))
    } else {
        qs
    }
}

/// Queue and spill list after `items` were handed in at `now`, in order.
pub open spec fn enqueue_all(qs: (Seq<SendData>, Seq<SendData>), items: Seq<SendDataType>, now: i64) -> (Seq<SendData>, Seq<SendData>)
    decreases items.len(),
{
    if items.len() == 0 {
        qs
    } else {
        enqueue_step(enqueue_all(qs, items.drop_last(), now), items.last(), now)
    }
}

/// One report of type `rtype` about each program of `pids`.
pub open spec fn reports_for(rtype: ReportType, pids: Seq<i32>) -> Seq<SendDataType> {
    pids.map_values(|pid: i32| SendDataType::Report(Report { delay: 0, rtype, program_id: Some(pid), descr: None }))
}

/// The in-memory send queue, and the must-have items waiting to be
/// written to the spill directory.
pub struct SendManager {
    pub queue: Vec<SendData>,
    pub spill: Vec<SendData>,
    pub tl_disk_check: i64,
    pub tl_try_send: i64,
}

/// `n` is `o` after `item` was handed in at time `now`: queued while there is
/// room, else spilled when it is must-have, else dropped.
pub open spec fn enqueued(o: SendManager, n: SendManager, item: SendDataType, now: i64) -> bool {
    &&& n.tl_disk_check == o.tl_disk_check
    &&& n.tl_try_send == o.tl_try_send
    &&& if o.queue@.len() < MAX_SEND_QUEUE {
        n.queue@ == o.queue@.push(SendData { dt: now, dtype: item }) && n.spill@ == o.spill@
    } else if item.must_have() {
        n.queue@ == o.queue@ && n.spill@ == o.spill@.push(SendData { dt: now, dtype: item })
    } else {
        n.queue@ == o.queue@ && n.spill@ == o.spill@
    }
}

/// `n` is `o` after a drain attempt at `now`; `due` tells whether the head
/// is to be sent now, and then carries its age as `delay`.
pub open spec fn send_prepared(o: SendManager, n: SendManager, now: i64, due: bool) -> bool {
    &&& due == (elapsed_spec(o.tl_try_send, now) >= TRY_SEND_PERIOD && o.queue@.len() > 0)
    &&& n.spill@ == o.spill@
    &&& n.tl_try_send == o.tl_try_send
    &&& n.tl_disk_check == o.tl_disk_check
    &&& if due {
        n.queue@ == o.queue@.update(0, SendData {
            dt: o.queue@[0].dt,
            dtype: with_delay_spec(o.queue@[0].dtype, elapsed_spec(o.queue@[0].dt, now)),
        })
    } else {
        n.queue@ == o.queue@
    }
}

impl SendManager {
    pub open spec fn wf(&self) -> bool {
        self.queue@.len() <= MAX_SEND_QUEUE
    }

    /// Must-have items held in memory, queued or waiting to be spilled.
    pub open spec fn held(&self) -> nat {
        must_have_count(self.queue@) + must_have_count(self.spill@)
    }

    /// An empty manager whose timers start at `now`.
    pub fn new(now: i64) -> (r: SendManager)
        ensures
            r.wf(),
            r.queue@.len() == 0,
            r.spill@.len() == 0,
            r.tl_disk_check == now,
            r.tl_try_send == now,
    {
        SendManager { queue: Vec::new(), spill: Vec::new(), tl_disk_check: now, tl_try_send: now }
    }

    /// Hands `item` in at time `now`.
    pub fn enqueue_at(&mut self, item: SendDataType, now: i64)
        requires
            old(self).wf(),
        ensures
            final(self).wf(),
            enqueued(*old(self), *final(self), item, now),
            final(self).held() == old(self).held() + if item.must_have() { 1nat } else { 0nat },
    {
        proof {
            lemma_must_have_count_push(self.queue@, SendData { dt: now, dtype: item });
            lemma_must_have_count_push(self.spill@, SendData { dt: now, dtype: item });
        }
        if self.queue.len() < MAX_SEND_QUEUE {
            self.queue.push(SendData { dt: now, dtype: item });
        } else if item.is_necessary() {
            self.spill.push(SendData { dt: now, dtype: item });
        }
    }

    pub fn report_at(&mut self, val: Report, now: i64)
        requires
            old(self).wf(),
        ensures
            final(self).wf(),
            enqueued(*old(self), *final(self), SendDataType::Report(val), now),
            final(self).held() == old(self).held() + 1,
    {
        self.enqueue_at(SendDataType::Report(val), now)
    }

    pub fn stat_at(&mut self, val: Stat, now: i64)
        requires
            old(self).wf(),
        ensures
            final(self).wf(),
            enqueued(*old(self), *final(self), SendDataType::Stat(val), now),
            final(self).held() == old(self).held() + 1,
    {
        self.enqueue_at(SendDataType::Stat(val), now)
    }

    pub fn log_at(&mut self, val: Log, now: i64)
        requires
            old(self).wf(),
        ensures
            final(self).wf(),
            enqueued(*old(self), *final(self), SendDataType::Log(val), now),
            final(self).held() == old(self).held(),
    {
        self.enqueue_at(SendDataType::Log(val), now)
    }

    /// Enqueues at `now` one report of type `rtype` for each program of `pids`.
    pub fn report_each(&mut self, rtype: ReportType, pids: &Vec<i32>, now: i64)
        requires
            old(self).wf(),
        ensures
            final(self).wf(),
            (final(self).queue@, final(self).spill@) == enqueue_all((old(self).queue@, old(self).spill@), reports_for(rtype, pids@), now),
            final(self).tl_disk_check == old(self).tl_disk_check,
            final(self).tl_try_send == old(self).tl_try_send,
    {
        let mut i: usize = 0;
        while i < pids.len()
            invariant
                i <= pids@.len(),
                self.wf(),
                (self.queue@, self.spill@) == enqueue_all((old(self).queue@, old(self).spill@), reports_for(rtype, pids@.subrange(0, i as int)), now),
                self.tl_disk_check == old(self).tl_disk_check,
                self.tl_try_send == old(self).tl_try_send,
            decreases pids@.len() - i,
        {
            assert(reports_for(rtype, pids@.subrange(0, i as int + 1)).drop_last() =~= reports_for(rtype, pids@.subrange(0, i as int)));
            self.report_at(Report { delay: 0, rtype, program_id: Some(pids[i]), descr: None }, now);
            i = i + 1;
        }
        assert(pids@.subrange(0, pids@.len() as int) =~= pids@);
    }

    /// Enqueues a report stamped with the current time.
    pub fn report(&mut self, val: Report)
        requires
            old(self).wf(),
        ensures
            final(self).wf(),
            exists|now: i64| enqueued(*old(self), *final(self), SendDataType::Report(val), now),
            final(self).held() == old(self).held() + 1,
    {
        let now = now_millis();
        self.report_at(val, now)
    }

    /// Enqueues a stat stamped with the current time.
    pub fn stat(&mut self, val: Stat)
        requires
            old(self).wf(),
        ensures
            final(self).wf(),
            exists|now: i64| enqueued(*old(self), *final(self), SendDataType::Stat(val), now),
            final(self).held() == old(self).held() + 1,
    {
        let now = now_millis();
        self.stat_at(val, now)
    }

    /// Enqueues a log stamped with the current time.
    pub fn log(&mut self, val: Log)
        requires
            old(self).wf(),
        ensures
            final(self).wf(),
            exists|now: i64| enqueued(*old(self), *final(self), SendDataType::Log(val), now),
            final(self).held() == old(self).held(),
    {
        let now = now_millis();
        self.log_at(val, now)
    }

    /// Decides at `now` whether the head is to be sent; when it is, sets its
    /// `delay` to its age, so the control plane sees how old it is.
    pub fn prepare_send(&mut self, now: i64) -> (due: bool)
        requires
            old(self).wf(),
        ensures
            final(self).wf(),
            send_prepared(*old(self), *final(self), now, due),
            final(self).held() == old(self).held(),
    {
        if elapsed(self.tl_try_send, now) < TRY_SEND_PERIOD {
            return false;
        }
        if self.queue.len() == 0 {
            return false;
        }
        let first = self.queue.remove(0);
        let age = elapsed(first.dt, now);
        let dt = first.dt;
        let dtype = first.dtype.with_delay(age);
        proof {
            let n = SendData { dt, dtype };
            lemma_must_have_count_drop_first(old(self).queue@);
            lemma_must_have_count_drop_first(old(self).queue@.update(0, n));
            assert(old(self).queue@.update(0, n).drop_first() =~= old(self).queue@.drop_first());
        }
        self.queue.insert(0, SendData { dt, dtype });
        assert(self.queue@ =~= old(self).queue@.update(0, SendData { dt, dtype }));
        true
    }

    /// Takes the outcome of sending the head: it leaves the queue when it
    /// was delivered, or when it was a log (logs are not retried); otherwise
    /// it stays and the next attempt waits a full period from `now`.
    pub fn send_done(&mut self, sent: bool, now: i64)
        requires
            old(self).wf(),
        ensures
            final(self).wf(),
            final(self).spill@ == old(self).spill@,
            final(self).tl_disk_check == old(self).tl_disk_check,
            old(self).queue@.len() == 0 ==> *final(self) == *old(self),
            old(self).queue@.len() > 0 && (sent || old(self).queue@[0].dtype is Log) ==> {
                &&& final(self).queue@ == old(self).queue@.drop_first()
                &&& final(self).tl_try_send == old(self).tl_try_send
            },
            old(self).queue@.len() > 0 && !sent && !(old(self).queue@[0].dtype is Log) ==> {
                &&& final(self).queue@ == old(self).queue@
                &&& final(self).tl_try_send == now
            },
            !sent ==> final(self).held() == old(self).held(),
    {
        if self.queue.len() == 0 {
            return;
        }
        let is_log = !self.queue[0].dtype.is_necessary();
        if sent || is_log {
            proof {
                lemma_must_have_count_drop_first(self.queue@);
            }
            self.queue.remove(0);
            assert(self.queue@ =~= old(self).queue@.drop_first());
        } else {
            self.tl_try_send = now;
        }
    }

    /// One look of the disk manager at `now`. When the agent is terminating,
    /// every queued must-have item moves to the spill list and logs are
    /// dropped. Otherwise, once a period, tells whether the queue is empty,
    /// so that one spilled item may be loaded back.
    pub fn disk_step(&mut self, terminating: bool, now: i64) -> (load: bool)
        requires
            old(self).wf(),
        ensures
            final(self).wf(),
            final(self).held() == old(self).held(),
            final(self).tl_try_send == old(self).tl_try_send,
            terminating ==> {
                &&& final(self).queue@.len() == 0
                &&& !load
                &&& final(self).spill@.len() >= old(self).spill@.len()
                &&& final(self).spill@.subrange(0, old(self).spill@.len() as int) == old(self).spill@
                &&& forall|k: int| old(self).spill@.len() <= k < final(self).spill@.len()
                    ==> final(self).spill@[k].dtype.must_have()
                &&& final(self).tl_disk_check == old(self).tl_disk_check
            },
            !terminating ==> {
                &&& final(self).queue@ == old(self).queue@
                &&& final(self).spill@ == old(self).spill@
                &&& if elapsed_spec(old(self).tl_disk_check, now) < DISK_CHECK_PERIOD {
                    !load && final(self).tl_disk_check == old(self).tl_disk_check
                } else {
                    load == (old(self).queue@.len() == 0) && final(self).tl_disk_check == now
                }
            },
    {
        if terminating {
            let ghost total = self.held();
            while self.queue.len() > 0
                invariant
                    self.held() == total,
                    self.tl_try_send == old(self).tl_try_send,
                    self.tl_disk_check == old(self).tl_disk_check,
                    self.queue@.len() <= MAX_SEND_QUEUE,
                    self.spill@.len() >= old(self).spill@.len(),
                    self.spill@.subrange(0, old(self).spill@.len() as int) == old(self).spill@,
                    forall|k: int| old(self).spill@.len() <= k < self.spill@.len() ==> self.spill@[k].dtype.must_have(),
                decreases self.queue@.len(),
            {
                proof {
                    lemma_must_have_count_drop_first(self.queue@);
                    lemma_must_have_count_push(self.spill@, self.queue@[0]);
                }
                let ghost sp = self.spill@;
                let d = self.queue.remove(0);
                if d.dtype.is_necessary() {
                    self.spill.push(d);
                    assert(self.spill@.subrange(0, old(self).spill@.len() as int) =~= sp.subrange(0, old(self).spill@.len() as int));
                }
            }
            return false;
        }
        if elapsed(self.tl_disk_check, now) < DISK_CHECK_PERIOD {
            return false;
        }
        self.tl_disk_check = now;
        self.queue.len() == 0
    }

    /// Queues an item read back from the spill directory, with the time it
    /// was first enqueued.
    pub fn push_loaded(&mut self, dt: i64, dtype: SendDataType)
        requires
            old(self).wf(),
        ensures
            final(self).wf(),
            old(self).queue@.len() < MAX_SEND_QUEUE ==> final(self).queue@ == old(self).queue@.push(SendData { dt, dtype }),
            old(self).queue@.len() >= MAX_SEND_QUEUE && dtype.must_have()
                ==> final(self).spill@ == old(self).spill@.push(SendData { dt, dtype }),
            final(self).held() == old(self).held() + if dtype.must_have() { 1nat } else { 0nat },
    {
        self.enqueue_at(dtype, dt)
    }

    /// Hands out the items waiting to be spilled, in order.
    pub fn take_spilled(&mut self) -> (r: Vec<SendData>)
        ensures
            r@ == old(self).spill@,
            final(self).spill@.len() == 0,
            final(self).queue@ == old(self).queue@,
            final(self).tl_disk_check == old(self).tl_disk_check,
            final(self).tl_try_send == old(self).tl_try_send,
    {
        self.spill.split_off(0)
    }
}

impl Default for SendManager {
    fn default() -> (r: SendManager)
        ensures
            r.wf(),
            r.queue@.len() == 0,
            r.spill@.len() == 0,
    {
        SendManager::new(now_millis())
    }
}

/// `ids[i]` is the oldest timestamp in `ids`, the first one if several are.
pub open spec fn is_oldest(ids: Seq<i64>, i: int) -> bool {
    &&& 0 <= i < ids.len()
    &&& forall|k: int| 0 <= k < ids.len() ==> ids[i] <= ids[k]
    &&& forall|k: int| 0 <= k < i ==> ids[k] > ids[i]
}

/// Index of the oldest timestamp among the spilled items.
pub fn select_oldest(ids: &Vec<i64>) -> (r: Option<usize>)
    ensures
        r is None <==> ids@.len() == 0,
        r is Some ==> is_oldest(ids@, r->0 as int),
{
    if ids.len() == 0 {
        return None;
    }
    let mut best: usize = 0;
    let mut i: usize = 1;
    while i < ids.len()
        invariant
            1 <= i <= ids@.len(),
            best < i,
            forall|k: int| 0 <= k < i ==> ids@[best as int] <= ids@[k],
            forall|k: int| 0 <= k < best ==> ids@[k] > ids@[best as int],
        decreases ids@.len() - i,
    {
        if ids[i] < ids[best] {
            best = i;
        }
        i = i + 1;
    }
    Some(best)
}

/// Items taken back from the spill directory one at a time, each time the
/// oldest of what is left, come back in ascending timestamp order.
pub proof fn lemma_spill_reload_ascending(ids: Seq<i64>, i: int, j: int)
    requires
        is_oldest(ids, i),
        is_oldest(ids.remove(i), j),
    ensures
        ids[i] <= ids.remove(i)[j],
{
    let rest = ids.remove(i);
    if j < i {
        assert(rest[j] == ids[j]);
    } else {
        assert(rest[j] == ids[j + 1]);
    }
}

/// A report handed in at `t0` into a queue with nothing ahead of it is, at
/// the first drain that is due, sent with its fields unchanged and a delay
/// of exactly the time it waited.
pub proof fn lemma_report_delivered_with_age(
    s0: SendManager,
    s1: SendManager,
    s2: SendManager,
    r: Report,
    t0: i64,
    t1: i64,
)
    requires
        s0.queue@.len() == 0,
        enqueued(s0, s1, SendDataType::Report(r), t0),
        send_prepared(s1, s2, t1, true),
    ensures
        s2.queue@[0].dtype == SendDataType::Report(Report { delay: elapsed_spec(t0, t1), ..r }),
{
    assert(s1.queue@[0] == SendData { dt: t0, dtype: SendDataType::Report(r) });
}

/// Handing an item in loses no must-have item: the count of queued and
/// to-be-spilled must-have items does not drop, and the queue stays
/// bounded. (A failed send and the disk manager keep that count exactly;
/// their contracts say so.)
pub proof fn lemma_no_loss_while_offline(s0: SendManager, s1: SendManager, item: SendDataType, now: i64)
    requires
        s0.wf(),
        enqueued(s0, s1, item, now),
    ensures
        s1.wf(),
        s1.held() >= s0.held(),
{
    lemma_must_have_count_push(s0.queue@, SendData { dt: now, dtype: item });
    lemma_must_have_count_push(s0.spill@, SendData { dt: now, dtype: item });
}

} // verus!
