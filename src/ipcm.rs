use vstd::prelude::*;

use crate::data_types::data_server::{GetPointConfigAnsw as PointConfig, Log};
use crate::sendm::{enqueued, SendDataType, SendManager};
use crate::utils::ipc::{RequestFromProgram, ResAnsw};

verus! {

/// Serves a request a program sent over the agent's socket: a log is
/// queued for the program its name resolves to in `config` (and dropped
/// when none does); a stat is queued as it is. Either way the program gets
/// `Accepted`.
pub fn handle_request(req: RequestFromProgram, config: &PointConfig, sm: &mut SendManager, now: i64) -> (r: ResAnsw)
    requires
        old(sm).wf(),
    ensures
        final(sm).wf(),
        r == ResAnsw::Accepted,
        match req {
            RequestFromProgram::Log(l) => if exists|i: int| 0 <= i < config.programs@.len() && config.programs@[i].name@ == l.name@ {
                exists|i: int| 0 <= i < config.programs@.len() && config.programs@[i].name@ == l.name@
                    && (forall|k: int| 0 <= k < i ==> config.programs@[k].name@ != l.name@)
                    && enqueued(*old(sm), *final(sm), SendDataType::Log(Log {
                        program_id: config.programs@[i].id, delay: 0, level: l.level, module: l.module,
                    }), now)
            } else {
                *final(sm) == *old(sm)
            },
            RequestFromProgram::Stat(s) => enqueued(*old(sm), *final(sm), SendDataType::Stat(s), now),
        },
{
    match req {
        RequestFromProgram::Log(log) => {
            if let Some(pid) = config.find_program_by_name(log.name.as_str()) {
                sm.log_at(Log { delay: 0, level: log.level, module: log.module, program_id: pid }, now);
            }
        },
        RequestFromProgram::Stat(stat) => {
            sm.stat_at(stat, now);
        },
    }
    ResAnsw::Accepted
}

} // verus!
