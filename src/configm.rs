use vstd::prelude::*;

use crate::data_types::data_server::{GetPointConfigAnsw as PointConfig, Report, ReportType};
use crate::sendm::{enqueued, SendDataType, SendManager};

verus! {

/// The base settings of the node config, apart from its program list.
pub struct ConfigBase {
    /// Milliseconds between two polls.
    pub poll_period: u64,
    pub bin_path: String,
    pub ipc_dir: String,
}

impl ConfigBase {
    /// The base settings of `config`; a negative poll period counts as zero.
    pub fn from_config(config: &PointConfig) -> (r: ConfigBase)
        ensures
            r.poll_period == if config.poll_period < 0 { 0 } else { config.poll_period as u64 },
            r.bin_path == config.bin_path,
            r.ipc_dir == config.ipc_dir,
    {
        ConfigBase {
            poll_period: if config.poll_period < 0 { 0 } else { config.poll_period as u64 },
            bin_path: config.bin_path.clone(),
            ipc_dir: config.ipc_dir.clone(),
        }
    }
}

/// Takes a node config fetched from the control plane at `now`: it becomes
/// the current config, and `PointConfigUpdate` is reported.
pub fn config_fetched(current: &mut PointConfig, fetched: PointConfig, sm: &mut SendManager, now: i64)
    requires
        old(sm).wf(),
    ensures
        *final(current) == fetched,
        final(sm).wf(),
        enqueued(*old(sm), *final(sm), SendDataType::Report(Report {
            delay: 0, rtype: ReportType::PointConfigUpdate, program_id: None, descr: None,
        }), now),
{
    *current = fetched;
    sm.report_at(Report { delay: 0, descr: None, program_id: None, rtype: ReportType::PointConfigUpdate }, now);
}

} // verus!
