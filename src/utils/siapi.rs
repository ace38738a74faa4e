use vstd::prelude::*;

use crate::data_types::data_server::{Auth, Log, ProgramHashes, ProgramRunStatus, ProgramStatus, Report, Request, Stat};
use crate::data_types::file_server;
use crate::data_types::Cert;
use crate::utils::AgentError;
use crate::utils::mos::{hash_vec, sha256_of};

verus! {

/// The character of decimal digit `d`.
pub open spec fn digit_char(d: nat) -> char {
    if d == 0 { '0' } else if d == 1 { '1' } else if d == 2 { '2' } else if d == 3 { '3' } else if d == 4 { '4' }
    else if d == 5 { '5' } else if d == 6 { '6' } else if d == 7 { '7' } else if d == 8 { '8' } else { '9' }
}

/// Decimal digits of `n`, most significant first.
pub open spec fn decimal(n: nat) -> Seq<char>
    decreases n,
{
    if n < 10 {
        seq![digit_char(n)]
    } else {
        decimal(n / 10).push(digit_char(n % 10))
    }
}

/// Decimal text of `n`, with a leading minus sign when negative.
pub open spec fn decimal_i32(n: i32) -> Seq<char> {
    if n < 0 { seq!['-'] + decimal((-n) as nat) } else { decimal(n as nat) }
}

fn digit_str(d: u32) -> (r: &'static str)
    requires
        d < 10,
    ensures
        r@ == seq![digit_char(d as nat)],
{
    proof {
        reveal_strlit("0");
        reveal_strlit("1");
        reveal_strlit("2");
        reveal_strlit("3");
        reveal_strlit("4");
        reveal_strlit("5");
        reveal_strlit("6");
        reveal_strlit("7");
        reveal_strlit("8");
        reveal_strlit("9");
    }
    if d == 0 { "0" } else if d == 1 { "1" } else if d == 2 { "2" } else if d == 3 { "3" } else if d == 4 { "4" }
    else if d == 5 { "5" } else if d == 6 { "6" } else if d == 7 { "7" } else if d == 8 { "8" } else { "9" }
}

pub fn format_u32(n: u32) -> (r: String)
    ensures
        r@ == decimal(n as nat),
    decreases n,
{
    if n < 10 {
        String::from_str(digit_str(n))
    } else {
        let mut s = format_u32(n / 10);
        s.append(digit_str(n % 10));
        s
    }
}

pub fn format_i32(n: i32) -> (r: String)
    ensures
        r@ == decimal_i32(n),
{
    if n < 0 {
        let m: u32 = if n == i32::MIN { 2147483648u32 } else { (-n) as u32 };
        let mut s = String::from_str("-");
        proof {
            reveal_strlit("-");
        }
        let d = format_u32(m);
        s.append(d.as_str());
        s
    } else {
        format_u32(n as u32)
    }
}

/// Client of the control plane: where it is and how this node
/// authenticates. The methods build the requests; the host sends them.
pub struct IntApi {
    pub host: String,
    pub data_port: u16,
    pub file_port: u16,
    pub auth: Auth,
}

/// Name of the staged archive of a download: `<kind>_<pid>`.
pub open spec fn temp_name(kind: Seq<char>, pid: i32) -> Seq<char> {
    kind + seq!['_'] + decimal_i32(pid)
}

impl IntApi {
    pub fn new(host: String, data_port: u16, file_port: u16, id: i32, token: Vec<u8>) -> (r: IntApi)
        ensures
            r == (IntApi { host, data_port, file_port, auth: Auth { id, token } }),
    {
        IntApi { host, data_port, file_port, auth: Auth { id, token } }
    }

    /// The client of a registered node; none for a node without `auth`.
    pub fn from_cert(cert: Cert) -> (r: Option<IntApi>)
        ensures
            cert.auth is None ==> r is None,
            cert.auth is Some ==> r == Some(IntApi {
                host: cert.host,
                data_port: cert.data_port,
                file_port: cert.file_port,
                auth: cert.auth->0,
            }),
    {
        match cert.auth {
            Some(auth) => Some(IntApi { host: cert.host, data_port: cert.data_port, file_port: cert.file_port, auth }),
            None => None,
        }
    }

    pub fn get_host(&self) -> (r: String)
        ensures
            r == self.host,
    {
        self.host.clone()
    }

    fn auth_copy(&self) -> (r: Auth)
        ensures
            r.id == self.auth.id,
            r.token@ == self.auth.token@,
    {
        let token = self.auth.token.clone();
        assert(token@ =~= self.auth.token@);
        Auth { id: self.auth.id, token }
    }

    pub open spec fn authed(&self, a: Auth) -> bool {
        a.id == self.auth.id && a.token@ == self.auth.token@
    }

    pub fn send_report(&self, report: Report) -> (r: Request)
        ensures
            r matches Request::AddReport(a, x) && self.authed(a) && x == report,
    {
        Request::AddReport(self.auth_copy(), report)
    }

    pub fn send_stat(&self, stat: Stat) -> (r: Request)
        ensures
            r matches Request::AddStat(a, x) && self.authed(a) && x == stat,
    {
        Request::AddStat(self.auth_copy(), stat)
    }

    pub fn send_log(&self, log: Log) -> (r: Request)
        ensures
            r matches Request::AddLog(a, x) && self.authed(a) && x == log,
    {
        Request::AddLog(self.auth_copy(), log)
    }

    pub fn send_status(&self, status: ProgramStatus) -> (r: Request)
        ensures
            r matches Request::SetStatus(a, x) && self.authed(a) && x == status,
    {
        Request::SetStatus(self.auth_copy(), status)
    }

    pub fn send_run_status(&self, status: ProgramRunStatus) -> (r: Request)
        ensures
            r matches Request::SetRunStatus(a, x) && self.authed(a) && x == status,
    {
        Request::SetRunStatus(self.auth_copy(), status)
    }

    pub fn poll(&self) -> (r: Request)
        ensures
            r matches Request::Poll(a) && self.authed(a),
    {
        Request::Poll(self.auth_copy())
    }

    pub fn get_update_data(&self, hashes: Vec<ProgramHashes>) -> (r: Request)
        ensures
            r matches Request::GetUpdateData(a, x) && self.authed(a) && x == hashes,
    {
        Request::GetUpdateData(self.auth_copy(), hashes)
    }

    pub fn get_point_config(&self) -> (r: Request)
        ensures
            r matches Request::GetPointConfig(a) && self.authed(a),
    {
        Request::GetPointConfig(self.auth_copy())
    }

    pub fn get_program_config(&self, config_id: i32) -> (r: Request)
        ensures
            r matches Request::GetProgramConfig(a, x) && self.authed(a) && x == config_id,
    {
        Request::GetProgramConfig(self.auth_copy(), config_id)
    }

    fn file_request(&self, program_id: i32, res_type: file_server::ResourceType) -> (r: file_server::Request)
        ensures
            r.point_id == self.auth.id,
            r.token@ == self.auth.token@,
            r.point_program_id == program_id,
            r.res_type == res_type,
    {
        let a = self.auth_copy();
        file_server::Request { point_id: a.id, point_program_id: program_id, token: a.token, res_type }
    }

    /// The file-port request for the asset of `program_id`, and the name
    /// its archive is staged under: `asset_<pid>`.
    pub fn download_asset(&self, program_id: i32) -> (r: (file_server::Request, String))
        ensures
            r.0.point_id == self.auth.id,
            r.0.token@ == self.auth.token@,
            r.0.point_program_id == program_id,
            r.0.res_type == file_server::ResourceType::Asset,
            r.1@ == temp_name("asset"@, program_id),
    {
        let req = self.file_request(program_id, file_server::ResourceType::Asset);
        let mut name = String::from_str("asset_");
        proof {
            reveal_strlit("asset_");
            reveal_strlit("asset");
            assert("asset_"@ =~= "asset"@ + seq!['_']);
        }
        let d = format_i32(program_id);
        name.append(d.as_str());
        (req, name)
    }

    /// The file-port request for the build of `program_id`, and the name
    /// its archive is staged under: `build_<pid>`.
    pub fn download_program(&self, program_id: i32) -> (r: (file_server::Request, String))
        ensures
            r.0.point_id == self.auth.id,
            r.0.token@ == self.auth.token@,
            r.0.point_program_id == program_id,
            r.0.res_type == file_server::ResourceType::Build,
            r.1@ == temp_name("build"@, program_id),
    {
        let req = self.file_request(program_id, file_server::ResourceType::Build);
        let mut name = String::from_str("build_");
        proof {
            reveal_strlit("build_");
            reveal_strlit("build");
            assert("build_"@ =~= "build"@ + seq!['_']);
        }
        let d = format_i32(program_id);
        name.append(d.as_str());
        (req, name)
    }

    /// The registration request for a node named `name` of firm `firm`.
    pub fn register(&self, name: String, firm: Option<String>) -> (r: Request)
        ensures
            r == Request::Register(name, firm),
    {
        Request::Register(name, firm)
    }
}

/// Checks a downloaded payload against the hash its header declared.
pub fn hash_matches(computed: &Vec<u8>, declared: &Vec<u8>) -> (r: Result<(), AgentError>)
    ensures
        r is Ok <==> computed@ == declared@,
        r is Err ==> r->Err_0 == AgentError::Integrity,
{
    if crate::utils::bytes_eq(computed, declared) {
        Ok(())
    } else {
        Err(AgentError::Integrity)
    }
}

/// Verifies a downloaded payload: its SHA-256 must equal the hash the file
/// port declared; otherwise the download fails with `Integrity`.
pub fn check_download(data: &Vec<u8>, declared: &Vec<u8>) -> (r: Result<(), AgentError>)
    requires
        data@.len() < crate::utils::mos::SHA256_MAX_INPUT,
    ensures
        r is Ok <==> sha256_of(data@) == declared@,
        r is Err ==> r->Err_0 == AgentError::Integrity,
{
    let computed = hash_vec(data);
    hash_matches(&computed, declared)
}

} // verus!
