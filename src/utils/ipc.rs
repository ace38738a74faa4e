use vstd::prelude::*;

use crate::data_types::data_server::{ModuleStatus, Stat};
use crate::utils::mos::{join_path, joined};

verus! {

/// A request the agent sends to a program over its local socket.
#[derive(PartialEq, Eq, Structural, Clone, Copy, Debug)]
pub enum RequestToProgram {
    GetStatus,
    /// Stop; the flag asks for a hard stop.
    Terminate(bool),
}

/// A log line a program hands to the agent, naming itself.
pub struct Log {
    pub name: String,
    pub level: i16,
    pub module: ModuleStatus,
}

/// A request a program sends to the agent.
pub enum RequestFromProgram {
    Log(Log),
    Stat(Stat),
}

/// The agent's reply to a program.
#[derive(PartialEq, Eq, Structural, Clone, Copy, Debug)]
pub enum ResAnsw {
    Accepted,
    Rejected,
}

/// Where the programs' local sockets live.
pub struct Ipc {
    pub ipc_dir: String,
}

impl Ipc {
    pub fn new(ipc_dir: &str) -> (r: Ipc)
        ensures
            r.ipc_dir@ == ipc_dir@,
    {
        Ipc { ipc_dir: String::from_str(ipc_dir) }
    }

    /// Socket of program `pname`: `ipc_dir/pname`.
    pub fn format_ipc(&self, pname: &str) -> (r: String)
        ensures
            r@ == joined(self.ipc_dir@, pname@),
    {
        join_path(self.ipc_dir.as_str(), pname)
    }

    /// Where and what to send to ask program `pname` to stop.
    pub fn terminate(&self, pname: &str, hard: bool) -> (r: (String, RequestToProgram))
        ensures
            r.0@ == joined(self.ipc_dir@, pname@),
            r.1 == RequestToProgram::Terminate(hard),
    {
        (self.format_ipc(pname), RequestToProgram::Terminate(hard))
    }

    /// Where and what to send to ask program `pname` for its status.
    pub fn get_status(&self, pname: &str) -> (r: (String, RequestToProgram))
        ensures
            r.0@ == joined(self.ipc_dir@, pname@),
            r.1 == RequestToProgram::GetStatus,
    {
        (self.format_ipc(pname), RequestToProgram::GetStatus)
    }
}

/// Socket of program `program_name` under `sock_path_dir`.
pub fn format_sock_path(program_name: &str, sock_path_dir: &str) -> (r: String)
    ensures
        r@ == joined(sock_path_dir@, program_name@),
{
    join_path(sock_path_dir, program_name)
}

} // verus!
