use vstd::prelude::*;

use crate::data_types::data_server::CmdType;

verus! {

/// The node config changed on the control plane.
#[derive(PartialEq, Eq, Structural, Clone, Copy, Debug)]
pub struct PointUpdateAvailable;

/// Program data (builds, assets, configs) changed on the control plane.
#[derive(PartialEq, Eq, Structural, Clone, Copy, Debug)]
pub struct ProgramUpdateAvailable;

/// A command from the control plane.
#[derive(PartialEq, Eq, Structural, Clone, Copy, Debug)]
pub struct Cmd {
    pub id: i32,
    pub ctype: CmdType,
}

/// A remote consumer asks to attach to the stdio of a program.
#[derive(PartialEq, Eq, Structural, Clone, Copy, Debug)]
pub struct Stream {
    pub id: i32,
    pub program_id: i32,
}

/// The control plane no longer knows this node.
#[derive(PartialEq, Eq, Structural, Clone, Copy, Debug)]
pub struct NotReg;

/// Ask the supervisor to stop program `pid`.
#[derive(PartialEq, Eq, Structural, Clone, Copy, Debug)]
pub struct TerminateRequest {
    pub pid: i32,
    pub hard: bool,
}

/// Ask the supervisor to start program `.0`.
#[derive(PartialEq, Eq, Structural, Clone, Copy, Debug)]
pub struct RunRequest(pub i32);

/// The program hashes changed and are to be saved.
#[derive(PartialEq, Eq, Structural, Clone, Copy, Debug)]
pub struct ProgramHashesChanged;

/// Any of the events raised by a poll of the control plane.
#[derive(PartialEq, Eq, Structural, Clone, Copy, Debug)]
pub enum PollEvent {
    PointUpdateAvailable,
    ProgramUpdateAvailable,
    Cmd(Cmd),
    Stream(Stream),
    NotReg,
}

/// A typed event channel, double-buffered: what is sent during one tick can
/// be read during that tick and the next, then it is dropped.
pub struct Events<T> {
    pub prev: Vec<T>,
    pub cur: Vec<T>,
}

impl<T: Copy> Events<T> {
    pub fn new() -> (r: Events<T>)
        ensures
            r.prev@.len() == 0,
            r.cur@.len() == 0,
    {
        Events { prev: Vec::new(), cur: Vec::new() }
    }

    pub fn send(&mut self, ev: T)
        ensures
            final(self).prev@ == old(self).prev@,
            final(self).cur@ == old(self).cur@.push(ev),
    {
        self.cur.push(ev);
    }

    /// The events that can be read now: last tick's, then this tick's.
    pub fn visible(&self) -> (r: Vec<T>)
        ensures
            r@ == self.prev@ + self.cur@,
    {
        let mut r: Vec<T> = Vec::new();
        let mut i: usize = 0;
        while i < self.prev.len()
            invariant
                i <= self.prev@.len(),
                r@ == self.prev@.subrange(0, i as int),
            decreases self.prev@.len() - i,
        {
            r.push(self.prev[i]);
            i = i + 1;
            assert(r@ =~= self.prev@.subrange(0, i as int));
        }
        let mut j: usize = 0;
        while j < self.cur.len()
            invariant
                j <= self.cur@.len(),
                r@ == self.prev@ + self.cur@.subrange(0, j as int),
            decreases self.cur@.len() - j,
        {
            r.push(self.cur[j]);
            j = j + 1;
            assert(r@ =~= self.prev@ + self.cur@.subrange(0, j as int));
        }
        assert(self.cur@.subrange(0, self.cur@.len() as int) =~= self.cur@);
        r
    }

    /// Ends a tick: last tick's events are dropped and this tick's become
    /// last tick's.
    pub fn update(&mut self)
        ensures
            final(self).prev@ == old(self).cur@,
            final(self).cur@.len() == 0,
    {
        let cur = self.cur.split_off(0);
        self.prev = cur;
    }
}

} // verus!
