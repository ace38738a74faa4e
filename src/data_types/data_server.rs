use vstd::prelude::*;

use crate::utils::AgentError;

verus! {

pub const PSTATUS_OK: i16 = 0;
pub const PSTATUS_WARNING: i16 = 1;
pub const PSTATUS_ERROR: i16 = 2;

pub const PRUNSTATUS_STOPPED: i16 = 0;
pub const PRUNSTATUS_RUN: i16 = 1;
pub const PRUNSTATUS_STOPPING: i16 = 2;
pub const PRUNSTATUS_CRASHING: i16 = 3;

pub const RTYPE_REBOOT: i16 = 1;
pub const RTYPE_SELFUPDATE: i16 = 2;
pub const RTYPE_BUILD_UPDATE: i16 = 3;
pub const RTYPE_CONFIG_UPDATE: i16 = 4;
pub const RTYPE_ASSET_UPDATE: i16 = 5;
pub const RTYPE_STOP_PROGRAM: i16 = 7;
pub const RTYPE_START_PROGRAM: i16 = 8;
pub const RTYPE_POINT_CONFIG_UPDATE: i16 = 9;
pub const RTYPE_INTERNAL_ERROR: i16 = 20;

pub const CMD_SELFUPDATE: i16 = 2;
pub const CMD_FORCE_SELFUPDATE: i16 = 3;
pub const CMD_FORCE_BUILD_UPDATE: i16 = 5;
pub const CMD_FORCE_ASSET_UPDATE: i16 = 7;
pub const CMD_FORCE_CONFIG_UPDATE: i16 = 9;
pub const CMD_START_PROGRAM: i16 = 20;
pub const CMD_SOFT_STOP_PROGRAM: i16 = 21;
pub const CMD_HARD_STOP_PROGRAM: i16 = 22;
pub const CMD_SOFT_REBOOT: i16 = 25;
pub const CMD_HARD_REBOOT: i16 = 26;
pub const CMD_INDICATE: i16 = 40;

/// A request on the control plane's data port.
pub enum Request {
    Poll(Auth),
    GetUpdateData(Auth, Vec<ProgramHashes>),
    GetPointConfig(Auth),
    GetProgramConfig(Auth, i32),
    AddLog(Auth, Log),
    AddStat(Auth, Stat),
    AddReport(Auth, Report),
    Register(String, Option<String>),
    SetStatus(Auth, ProgramStatus),
    SetRunStatus(Auth, ProgramRunStatus),
}

pub struct Auth {
    pub id: i32,
    pub token: Vec<u8>,
}

pub struct OkAnsw {}

/// What a poll of the control plane can announce.
pub enum PollAnsw {
    Nothing,
    PointConfigChanged,
    ProgramDataChanged,
    Cmd(i32, CmdType),
    Stream(i32, i32),
    NotReg,
}

/// Hashes of the artifacts of one program as the node has them on disk.
/// An empty `build_hash` forces a build fetch.
#[derive(Clone, Debug)]
pub struct ProgramHashes {
    pub id: i32,
    pub build_hash: Vec<u8>,
    pub asset_hash: Option<Vec<u8>>,
    pub configs: Vec<(i32, Vec<u8>)>,
}

/// The control plane names at most one update per answer.
#[derive(PartialEq, Eq, Structural, Clone, Copy, Debug)]
pub enum GetUpdateDataAnsw {
    Build(i32),
    Asset(i32, bool),
    Config(i32),
    Nothing,
}

/// How the agent talks to a program over its local socket.
#[derive(PartialEq, Eq, Structural, Clone, Copy, Debug)]
pub enum IpcType {
    Msgpack,
    Json,
}

pub struct ProgramCustom {
    pub autoupdate: bool,
    pub config_autoupdate: bool,
    pub asset_autoupdate: bool,
    pub ipc_type: Option<IpcType>,
    pub log_level: i16,
    pub configs: Vec<(i32, String)>,
}

impl ProgramCustom {
    /// Relative path of the config `cid`, the first listed under that id.
    pub fn get_config_path_by_id(&self, cid: i32) -> (r: Option<String>)
        ensures
            r is None <==> (forall|j: int| 0 <= j < self.configs@.len() ==> self.configs@[j].0 != cid),
            r is Some ==> exists|j: int|
                0 <= j < self.configs@.len() && self.configs@[j].0 == cid && r->0 == self.configs@[j].1
                && forall|k: int| 0 <= k < j ==> self.configs@[k].0 != cid,
    {
        let mut i: usize = 0;
        while i < self.configs.len()
            invariant
                i <= self.configs@.len(),
                forall|k: int| 0 <= k < i ==> self.configs@[k].0 != cid,
            decreases self.configs@.len() - i,
        {
            if self.configs[i].0 == cid {
                return Some(self.configs[i].1.clone());
            }
            i = i + 1;
        }
        None
    }
}

pub enum ProgramType {
    Custom(ProgramCustom),
    Builtin,
}

impl ProgramType {
    pub fn is_custom(&self) -> (r: bool)
        ensures
            r == (self is Custom),
    {
        match self {
            ProgramType::Builtin => false,
            ProgramType::Custom(_) => true,
        }
    }
}

/// A program descriptor of the node config.
pub struct Program {
    pub id: i32,
    pub name: String,
    pub keep_run: bool,
    pub entry: String,
    pub args_after: Option<String>,
    pub args_before: Option<String>,
    pub is_indicate: bool,
    pub ptype: ProgramType,
}

impl Program {
    /// The program is custom and lists a config with id `cid`.
    pub open spec fn has_config(&self, cid: i32) -> bool {
        match self.ptype {
            ProgramType::Custom(c) => exists|j: int| 0 <= j < c.configs@.len() && c.configs@[j].0 == cid,
            ProgramType::Builtin => false,
        }
    }

    /// Relative path of config `cid` of this program, if it lists one.
    pub fn find_config(&self, cid: i32) -> (r: Option<String>)
        ensures
            r is Some <==> self.has_config(cid),
            r is Some ==> (self.ptype matches ProgramType::Custom(c) && exists|j: int|
                0 <= j < c.configs@.len() && c.configs@[j].0 == cid && r->0 == c.configs@[j].1),
    {
        match &self.ptype {
            ProgramType::Custom(c) => c.get_config_path_by_id(cid),
            ProgramType::Builtin => None,
        }
    }
}

/// The node config: base settings and the ordered program list.
pub struct GetPointConfigAnsw {
    pub poll_period: i64,
    pub bin_path: String,
    pub ipc_dir: String,
    pub programs: Vec<Program>,
}

pub type PointConfig = GetPointConfigAnsw;

impl GetPointConfigAnsw {
    /// Program ids are unique.
    pub open spec fn ids_unique(&self) -> bool {
        forall|i: int, j: int|
            0 <= i < self.programs@.len() && 0 <= j < self.programs@.len() && i != j
                ==> self.programs@[i].id != self.programs@[j].id
    }

    /// Index of the first program with id `pid`.
    pub open spec fn first_with_id(&self, pid: i32, i: int) -> bool {
        0 <= i < self.programs@.len() && self.programs@[i].id == pid
            && forall|k: int| 0 <= k < i ==> self.programs@[k].id != pid
    }

    /// Index of the first program that lists config `cid`.
    pub open spec fn first_with_config(&self, cid: i32, i: int) -> bool {
        0 <= i < self.programs@.len() && self.programs@[i].has_config(cid)
            && forall|k: int| 0 <= k < i ==> !self.programs@[k].has_config(cid)
    }

    pub open spec fn has_program(&self, pid: i32) -> bool {
        exists|i: int| 0 <= i < self.programs@.len() && self.programs@[i].id == pid
    }

    /// Id of the first program that lists config `config_id`.
    pub fn find_program_by_config(&self, config_id: i32) -> (r: Option<i32>)
        ensures
            r is None <==> (forall|i: int| 0 <= i < self.programs@.len() ==> !self.programs@[i].has_config(config_id)),
            r is Some ==> exists|i: int| self.first_with_config(config_id, i) && self.programs@[i].id == r->0,
    {
        let mut i: usize = 0;
        while i < self.programs.len()
            invariant
                i <= self.programs@.len(),
                forall|k: int| 0 <= k < i ==> !self.programs@[k].has_config(config_id),
            decreases self.programs@.len() - i,
        {
            match &self.programs[i].ptype {
                ProgramType::Custom(data) => {
                    let mut j: usize = 0;
                    while j < data.configs.len()
                        invariant
                            i < self.programs@.len(),
                            forall|k: int| 0 <= k < i ==> !self.programs@[k].has_config(config_id),
                            self.programs@[i as int].ptype == ProgramType::Custom(*data),
                            j <= data.configs@.len(),
                            forall|k: int| 0 <= k < j ==> data.configs@[k].0 != config_id,
                        decreases data.configs@.len() - j,
                    {
                        if data.configs[j].0 == config_id {
                            assert(self.programs@[i as int].has_config(config_id));
                            assert(self.first_with_config(config_id, i as int));
                            return Some(self.programs[i].id);
                        }
                        j = j + 1;
                    }
                },
                ProgramType::Builtin => {},
            }
            i = i + 1;
        }
        None
    }

    /// Id of the first program named `name`.
    pub fn find_program_by_name(&self, name: &str) -> (r: Option<i32>)
        ensures
            r is None <==> (forall|i: int| 0 <= i < self.programs@.len() ==> self.programs@[i].name@ != name@),
            r is Some ==> exists|i: int|
                0 <= i < self.programs@.len() && self.programs@[i].name@ == name@
                && self.programs@[i].id == r->0
                && forall|k: int| 0 <= k < i ==> self.programs@[k].name@ != name@,
    {
        let mut i: usize = 0;
        while i < self.programs.len()
            invariant
                i <= self.programs@.len(),
                forall|k: int| 0 <= k < i ==> self.programs@[k].name@ != name@,
            decreases self.programs@.len() - i,
        {
            if crate::utils::str_eq(self.programs[i].name.as_str(), name) {
                return Some(self.programs[i].id);
            }
            i = i + 1;
        }
        None
    }

    /// Index of the first program with id `pid`.
    pub fn program_index(&self, pid: i32) -> (r: Option<usize>)
        ensures
            r is None <==> !self.has_program(pid),
            r is Some ==> self.first_with_id(pid, r->0 as int),
    {
        let mut i: usize = 0;
        while i < self.programs.len()
            invariant
                i <= self.programs@.len(),
                forall|k: int| 0 <= k < i ==> self.programs@[k].id != pid,
            decreases self.programs@.len() - i,
        {
            if self.programs[i].id == pid {
                return Some(i);
            }
            i = i + 1;
        }
        None
    }

    /// The first program with id `pid`.
    pub fn get_program_by_id(&self, pid: i32) -> (r: Option<&Program>)
        ensures
            r is None <==> !self.has_program(pid),
            r is Some ==> exists|i: int| self.first_with_id(pid, i) && *r->0 == self.programs@[i],
    {
        match self.program_index(pid) {
            Some(i) => Some(&self.programs[i]),
            None => None,
        }
    }
}

pub struct GetProgramConfigAnsw {
    pub hash: Vec<u8>,
    pub data: Vec<u8>,
}

pub struct RegisterData {
    pub id: i32,
    pub name: String,
    pub firm_id: i32,
    pub firm_name: String,
    pub token: Vec<u8>,
}

pub enum RegisterAnsw {
    Proceed,
    ProceedIndicate,
    Registered(RegisterData),
}

#[derive(PartialEq, Eq, Structural, Clone, Copy, Debug)]
pub enum StatusCode {
    Normal,
    Warning,
    Error,
}

impl StatusCode {
    pub fn to_code(&self) -> (r: i16)
        ensures
            r == match self {
                StatusCode::Normal => PSTATUS_OK,
                StatusCode::Warning => PSTATUS_WARNING,
                StatusCode::Error => PSTATUS_ERROR,
            },
    {
        match self {
            StatusCode::Normal => PSTATUS_OK,
            StatusCode::Warning => PSTATUS_WARNING,
            StatusCode::Error => PSTATUS_ERROR,
        }
    }
}

pub struct ProgramRunStatus {
    pub id: i32,
    pub status: RunStatusCode,
}

pub enum RunStatusCode {
    Stopped(Option<String>),
    Run,
    Stopping,
    Crashing(Option<String>),
}

impl RunStatusCode {
    pub fn to_code(&self) -> (r: i16)
        ensures
            r == match self {
                RunStatusCode::Stopped(_) => PRUNSTATUS_STOPPED,
                RunStatusCode::Run => PRUNSTATUS_RUN,
                RunStatusCode::Stopping => PRUNSTATUS_STOPPING,
                RunStatusCode::Crashing(_) => PRUNSTATUS_CRASHING,
            },
    {
        match self {
            RunStatusCode::Stopped(_) => PRUNSTATUS_STOPPED,
            RunStatusCode::Run => PRUNSTATUS_RUN,
            RunStatusCode::Stopping => PRUNSTATUS_STOPPING,
            RunStatusCode::Crashing(_) => PRUNSTATUS_CRASHING,
        }
    }

    /// The last words a stopped or crashed program left, if any.
    pub fn last_words(self) -> (r: Option<String>)
        ensures
            r == match self {
                RunStatusCode::Stopped(lw) => lw,
                RunStatusCode::Crashing(lw) => lw,
                _ => None,
            },
    {
        match self {
            RunStatusCode::Stopped(lw) => lw,
            RunStatusCode::Run => None,
            RunStatusCode::Stopping => None,
            RunStatusCode::Crashing(lw) => lw,
        }
    }
}

#[derive(PartialEq, Eq, Structural, Clone, Copy, Debug)]
pub enum CmdType {
    Selfupdate,
    ForceSelfupdate,
    ForceBuildUpdate(i32),
    ForceAssetUpdate(i32),
    ForceConfigUpdate(i32),
    StartProgram(i32),
    SoftStopProgram(i32),
    HardStopProgram(i32),
    SoftReboot,
    HardReboot,
    Indicate,
}

/// The command codes the control plane may send.
pub open spec fn known_cmd_code(code: i16) -> bool {
    code == CMD_SELFUPDATE || code == CMD_FORCE_SELFUPDATE || code == CMD_FORCE_BUILD_UPDATE
        || code == CMD_FORCE_ASSET_UPDATE || code == CMD_FORCE_CONFIG_UPDATE || code == CMD_START_PROGRAM
        || code == CMD_SOFT_STOP_PROGRAM || code == CMD_HARD_STOP_PROGRAM || code == CMD_SOFT_REBOOT
        || code == CMD_HARD_REBOOT || code == CMD_INDICATE
}

/// The command codes that name a program.
pub open spec fn cmd_code_targets_program(code: i16) -> bool {
    code == CMD_FORCE_BUILD_UPDATE || code == CMD_FORCE_ASSET_UPDATE || code == CMD_FORCE_CONFIG_UPDATE
        || code == CMD_START_PROGRAM || code == CMD_SOFT_STOP_PROGRAM || code == CMD_HARD_STOP_PROGRAM
}

impl CmdType {
    pub open spec fn code_of(&self) -> i16 {
        match self {
            CmdType::Selfupdate => CMD_SELFUPDATE,
            CmdType::ForceSelfupdate => CMD_FORCE_SELFUPDATE,
            CmdType::ForceBuildUpdate(_) => CMD_FORCE_BUILD_UPDATE,
            CmdType::ForceAssetUpdate(_) => CMD_FORCE_ASSET_UPDATE,
            CmdType::ForceConfigUpdate(_) => CMD_FORCE_CONFIG_UPDATE,
            CmdType::StartProgram(_) => CMD_START_PROGRAM,
            CmdType::SoftStopProgram(_) => CMD_SOFT_STOP_PROGRAM,
            CmdType::HardStopProgram(_) => CMD_HARD_STOP_PROGRAM,
            CmdType::SoftReboot => CMD_SOFT_REBOOT,
            CmdType::HardReboot => CMD_HARD_REBOOT,
            CmdType::Indicate => CMD_INDICATE,
        }
    }

    /// The program a command is about, for the commands that name one.
    pub open spec fn target_of(&self) -> Option<i32> {
        match self {
            CmdType::ForceBuildUpdate(p) => Some(*p),
            CmdType::ForceAssetUpdate(p) => Some(*p),
            CmdType::ForceConfigUpdate(p) => Some(*p),
            CmdType::StartProgram(p) => Some(*p),
            CmdType::SoftStopProgram(p) => Some(*p),
            CmdType::HardStopProgram(p) => Some(*p),
            _ => None,
        }
    }

    pub fn to_code(&self) -> (r: i16)
        ensures
            r == self.code_of(),
    {
        match self {
            CmdType::Selfupdate => CMD_SELFUPDATE,
            CmdType::ForceSelfupdate => CMD_FORCE_SELFUPDATE,
            CmdType::ForceBuildUpdate(_) => CMD_FORCE_BUILD_UPDATE,
            CmdType::ForceAssetUpdate(_) => CMD_FORCE_ASSET_UPDATE,
            CmdType::ForceConfigUpdate(_) => CMD_FORCE_CONFIG_UPDATE,
            CmdType::StartProgram(_) => CMD_START_PROGRAM,
            CmdType::SoftStopProgram(_) => CMD_SOFT_STOP_PROGRAM,
            CmdType::HardStopProgram(_) => CMD_HARD_STOP_PROGRAM,
            CmdType::SoftReboot => CMD_SOFT_REBOOT,
            CmdType::HardReboot => CMD_HARD_REBOOT,
            CmdType::Indicate => CMD_INDICATE,
        }
    }

    /// Decodes a command code; the program-scoped commands need `program_id`.
    pub fn from_code(code: i16, program_id: Option<i32>) -> (r: Result<Self, AgentError>)
        ensures
            r is Ok <==> (known_cmd_code(code) && (cmd_code_targets_program(code) ==> program_id is Some)),
            r is Err ==> r->Err_0 == AgentError::InvalidInput,
            r is Ok ==> r->Ok_0.code_of() == code
                && r->Ok_0.target_of() == (if cmd_code_targets_program(code) { program_id } else { None }),
    {
        match code {
            CMD_SELFUPDATE => Ok(CmdType::Selfupdate),
            CMD_FORCE_SELFUPDATE => Ok(CmdType::ForceSelfupdate),
            CMD_FORCE_BUILD_UPDATE => Ok(CmdType::ForceBuildUpdate(Self::opt(program_id)?)),
            CMD_FORCE_ASSET_UPDATE => Ok(CmdType::ForceAssetUpdate(Self::opt(program_id)?)),
            CMD_FORCE_CONFIG_UPDATE => Ok(CmdType::ForceConfigUpdate(Self::opt(program_id)?)),
            CMD_START_PROGRAM => Ok(CmdType::StartProgram(Self::opt(program_id)?)),
            CMD_SOFT_STOP_PROGRAM => Ok(CmdType::SoftStopProgram(Self::opt(program_id)?)),
            CMD_HARD_STOP_PROGRAM => Ok(CmdType::HardStopProgram(Self::opt(program_id)?)),
            CMD_SOFT_REBOOT => Ok(CmdType::SoftReboot),
            CMD_HARD_REBOOT => Ok(CmdType::HardReboot),
            CMD_INDICATE => Ok(CmdType::Indicate),
            _ => Err(AgentError::InvalidInput),
        }
    }

    fn opt(val: Option<i32>) -> (r: Result<i32, AgentError>)
        ensures
            match val {
                Some(v) => r == Ok::<i32, AgentError>(v),
                None => r == Err::<i32, AgentError>(AgentError::InvalidInput),
            },
    {
        match val {
            Some(v) => Ok(v),
            None => Err(AgentError::InvalidInput),
        }
    }
}

#[derive(PartialEq, Eq, Structural, Clone, Copy, Debug)]
pub enum ReportType {
    Reboot,
    Selfupdate,
    BuildUpdate,
    ConfigUpdate,
    AssetUpdate,
    StopProgram,
    StartProgram,
    PointConfigUpdate,
    InternalError,
}

impl ReportType {
    pub fn to_code(&self) -> (r: i16)
        ensures
            r == match self {
                ReportType::Reboot => RTYPE_REBOOT,
                ReportType::Selfupdate => RTYPE_SELFUPDATE,
                ReportType::BuildUpdate => RTYPE_BUILD_UPDATE,
                ReportType::ConfigUpdate => RTYPE_CONFIG_UPDATE,
                ReportType::AssetUpdate => RTYPE_ASSET_UPDATE,
                ReportType::StopProgram => RTYPE_STOP_PROGRAM,
                ReportType::StartProgram => RTYPE_START_PROGRAM,
                ReportType::PointConfigUpdate => RTYPE_POINT_CONFIG_UPDATE,
                ReportType::InternalError => RTYPE_INTERNAL_ERROR,
            },
    {
        match self {
            ReportType::Reboot => RTYPE_REBOOT,
            ReportType::Selfupdate => RTYPE_SELFUPDATE,
            ReportType::BuildUpdate => RTYPE_BUILD_UPDATE,
            ReportType::ConfigUpdate => RTYPE_CONFIG_UPDATE,
            ReportType::AssetUpdate => RTYPE_ASSET_UPDATE,
            ReportType::StopProgram => RTYPE_STOP_PROGRAM,
            ReportType::StartProgram => RTYPE_START_PROGRAM,
            ReportType::PointConfigUpdate => RTYPE_POINT_CONFIG_UPDATE,
            ReportType::InternalError => RTYPE_INTERNAL_ERROR,
        }
    }
}

/// An event report. `delay` is the age of the report, in milliseconds,
/// when it reaches the control plane.
pub struct Report {
    pub delay: i64,
    pub rtype: ReportType,
    pub program_id: Option<i32>,
    pub descr: Option<String>,
}

impl Report {
    /// A report with no description, not yet aged.
    pub fn new(rtype: ReportType, program_id: Option<i32>) -> (r: Report)
        ensures
            r == (Report { delay: 0, rtype, program_id, descr: None }),
    {
        Report { delay: 0, rtype, program_id, descr: None }
    }
}

pub struct ModuleStatus {
    pub lstype: StatusCode,
    pub module: String,
    pub descr: String,
}

pub struct Log {
    pub program_id: i32,
    pub delay: i64,
    pub level: i16,
    pub module: ModuleStatus,
}

pub struct Stat {
    pub delay: i64,
    pub name: String,
    pub data: Vec<u8>,
}

pub struct ProgramStatus {
    pub name: String,
    pub modules: Vec<ModuleStatus>,
}

} // verus!
