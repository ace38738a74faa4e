use vstd::prelude::*;

pub mod data_server;
pub mod file_server;
pub mod stream_api;

use crate::data_types::data_server::Auth;

verus! {

/// The node's identity: where the control plane lives and, once
/// registered, the credentials issued by it.
pub struct Cert {
    pub host: String,
    pub data_port: u16,
    pub file_port: u16,
    pub stream_port: u16,
    pub name: Option<String>,
    pub firm_id: Option<i32>,
    pub firm_name: Option<String>,
    pub auth: Option<Auth>,
}

impl Cert {
    /// A node without `auth` is not registered.
    pub open spec fn is_registered(&self) -> bool {
        self.auth.is_some()
    }
}

#[derive(PartialEq, Eq, Structural, Clone, Copy, Debug)]
pub enum AppStateCode {
    Init,
    Normal,
    Emergency,
    Shutdown,
}

pub struct AppState {
    pub code: AppStateCode,
}

impl Default for AppState {
    fn default() -> (r: Self)
        ensures
            r.code == AppStateCode::Init,
    {
        AppState { code: AppStateCode::Init }
    }
}

impl AppState {
    /// `Emergency` and `Shutdown` mean: take no new work, drain to disk.
    pub open spec fn terminating(&self) -> bool {
        self.code == AppStateCode::Emergency || self.code == AppStateCode::Shutdown
    }

    pub fn is_terminate(&self) -> (r: bool)
        ensures
            r == self.terminating(),
    {
        self.code == AppStateCode::Emergency || self.code == AppStateCode::Shutdown
    }
}

} // verus!
