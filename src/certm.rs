use vstd::prelude::*;

use crate::data_types::data_server::{Auth, RegisterAnsw};
use crate::data_types::{AppState, AppStateCode, Cert};

verus! {

/// What to do after an answer to a registration request.
pub enum RegisterStep {
    /// Registered: the cert to write and go on with.
    Done(Cert),
    /// Not yet: show the node's indicator, then ask again.
    Indicate(Cert),
    /// Not yet: wait, then ask again.
    Retry(Cert),
}

/// The name the node registers under: the one in its cert, else the host name.
pub fn point_name(cert: &Cert, hostname: String) -> (r: String)
    ensures
        r == match cert.name {
            Some(n) => n,
            None => hostname,
        },
{
    match &cert.name {
        Some(n) => n.clone(),
        None => hostname,
    }
}

/// Follows an answer to a registration request. A registration fills in
/// the name, the firm and the credentials and keeps the address.
pub fn register_step(cert: Cert, answ: RegisterAnsw) -> (r: RegisterStep)
    ensures
        match answ {
            RegisterAnsw::Registered(d) => r == RegisterStep::Done(Cert {
                name: Some(d.name),
                firm_id: Some(d.firm_id),
                firm_name: Some(d.firm_name),
                auth: Some(Auth { id: d.id, token: d.token }),
                ..cert
            }),
            RegisterAnsw::ProceedIndicate => r == RegisterStep::Indicate(cert),
            RegisterAnsw::Proceed => r == RegisterStep::Retry(cert),
        },
{
    match answ {
        RegisterAnsw::Registered(d) => RegisterStep::Done(Cert {
            name: Some(d.name),
            firm_id: Some(d.firm_id),
            firm_name: Some(d.firm_name),
            auth: Some(Auth { id: d.id, token: d.token }),
            ..cert
        }),
        RegisterAnsw::ProceedIndicate => RegisterStep::Indicate(cert),
        RegisterAnsw::Proceed => RegisterStep::Retry(cert),
    }
}

fn clone_opt_string(o: &Option<String>) -> (r: Option<String>)
    ensures
        r == *o,
{
    match o {
        Some(s) => Some(s.clone()),
        None => None,
    }
}

/// The cert of a node whose access was revoked: same address and name,
/// no firm id, no credentials.
pub fn reset_cert(cert: &Cert) -> (r: Cert)
    ensures
        r == (Cert { firm_id: None, auth: None, ..*cert }),
{
    Cert {
        host: cert.host.clone(),
        data_port: cert.data_port,
        file_port: cert.file_port,
        stream_port: cert.stream_port,
        name: clone_opt_string(&cert.name),
        firm_name: clone_opt_string(&cert.firm_name),
        firm_id: None,
        auth: None,
    }
}

/// On a revoked access: the cert loses its credentials and the agent shuts
/// down, so that the next start registers again.
pub fn sys_reset(cert: &Cert, state: &mut AppState) -> (r: Cert)
    ensures
        r == (Cert { firm_id: None, auth: None, ..*cert }),
        !r.is_registered(),
        final(state).code == AppStateCode::Shutdown,
        final(state).terminating(),
{
    state.code = AppStateCode::Shutdown;
    reset_cert(cert)
}

} // verus!
