use vstd::prelude::*;

use crate::data_types::data_server::PollAnsw;
use crate::events::{Cmd, PollEvent, Stream};
use crate::sendm::{elapsed, elapsed_spec};
use crate::utils::AgentError;
use crate::utils::siapi::IntApi;

verus! {

/// The control-plane link: its client, whether the last poll got through,
/// and when the last poll was made (Unix milliseconds).
pub struct Server {
    pub api: IntApi,
    pub is_connect: bool,
    pub tl_poll: i64,
}

/// The event a poll answer raises, if any.
pub open spec fn poll_event_of(answ: PollAnsw) -> Option<PollEvent> {
    match answ {
        PollAnsw::Nothing => None,
        PollAnsw::NotReg => Some(PollEvent::NotReg),
        PollAnsw::Cmd(id, ctype) => Some(PollEvent::Cmd(Cmd { id, ctype })),
        PollAnsw::PointConfigChanged => Some(PollEvent::PointUpdateAvailable),
        PollAnsw::ProgramDataChanged => Some(PollEvent::ProgramUpdateAvailable),
        PollAnsw::Stream(id, program_id) => Some(PollEvent::Stream(Stream { id, program_id })),
    }
}

impl Server {
    pub fn new(api: IntApi, now: i64) -> (r: Server)
        ensures
            r.api == api,
            !r.is_connect,
            r.tl_poll == now,
    {
        Server { api, is_connect: false, tl_poll: now }
    }

    /// Whether a poll is due at `now`, `poll_period` milliseconds after the
    /// last one; when it is, the poll is stamped with `now`.
    pub fn poll_due(&mut self, now: i64, poll_period: u64) -> (due: bool)
        ensures
            due == (elapsed_spec(old(self).tl_poll, now) >= poll_period),
            final(self).api == old(self).api,
            final(self).is_connect == old(self).is_connect,
            final(self).tl_poll == if due { now } else { old(self).tl_poll },
    {
        let e = elapsed(self.tl_poll, now);
        if e < 0 || (e as u64) < poll_period {
            return false;
        }
        self.tl_poll = now;
        true
    }

    /// Takes the outcome of a poll: a reply means the link is up and may
    /// raise an event; a refused access means the node is no longer
    /// registered; any other failure means the link is down.
    pub fn handle_poll(&mut self, res: Result<PollAnsw, AgentError>) -> (r: Option<PollEvent>)
        ensures
            final(self).api == old(self).api,
            final(self).tl_poll == old(self).tl_poll,
            match res {
                Ok(answ) => final(self).is_connect && r == poll_event_of(answ),
                Err(e) => !final(self).is_connect && r == if e == AgentError::AccessDenied {
                    Some(PollEvent::NotReg)
                } else {
                    None
                },
            },
    {
        match res {
            Ok(answ) => {
                self.is_connect = true;
                match answ {
                    PollAnsw::Nothing => None,
                    PollAnsw::NotReg => Some(PollEvent::NotReg),
                    PollAnsw::Cmd(id, ctype) => Some(PollEvent::Cmd(Cmd { id, ctype })),
                    PollAnsw::PointConfigChanged => Some(PollEvent::PointUpdateAvailable),
                    PollAnsw::ProgramDataChanged => Some(PollEvent::ProgramUpdateAvailable),
                    PollAnsw::Stream(id, program_id) => Some(PollEvent::Stream(Stream { id, program_id })),
                }
            },
            Err(e) => {
                self.is_connect = false;
                if e == AgentError::AccessDenied {
                    Some(PollEvent::NotReg)
                } else {
                    None
                }
            },
        }
    }
}

} // verus!
