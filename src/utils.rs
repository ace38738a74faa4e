use vstd::prelude::*;

pub mod mos;
pub mod siapi;
pub mod ipc;

verus! {

/// The kinds of failure that reach the agent kernel.
#[derive(PartialEq, Eq, Structural, Clone, Copy, Debug)]
pub enum AgentError {
    Network,
    AccessDenied,
    Integrity,
    NotFound,
    InvalidInput,
    Filesystem,
    Other,
}

pub fn err(_e: &str) -> (r: AgentError)
    ensures
        r == AgentError::Other,
{
    AgentError::Other
}

/// Character-wise equality of two strings.
pub fn str_eq(a: &str, b: &str) -> (r: bool)
    ensures
        r == (a@ == b@),
{
    let n = a.unicode_len();
    if n != b.unicode_len() {
        return false;
    }
    let mut i: usize = 0;
    while i < n
        invariant
            n == a@.len(),
            n == b@.len(),
            i <= n,
            forall|k: int| 0 <= k < i ==> a@[k] == b@[k],
        decreases n - i,
    {
        if a.get_char(i) != b.get_char(i) {
            return false;
        }
        i = i + 1;
    }
    assert(a@ =~= b@);
    true
}

pub fn count<T>(data: &[T]) -> (r: usize)
    ensures
        r == data@.len(),
{
    let mut cnt: usize = 0;
    while cnt < data.len()
        invariant
            cnt <= data@.len(),
        decreases data@.len() - cnt,
    {
        cnt = cnt + 1;
    }
    cnt
}

pub fn some_str(val: &str) -> (r: Option<String>)
    ensures
        r is Some && r->0@ == val@,
{
    Some(String::from_str(val))
}

} // verus!

verus! {

/// Byte-wise equality of two byte strings.
pub fn bytes_eq(a: &Vec<u8>, b: &Vec<u8>) -> (r: bool)
    ensures
        r == (a@ == b@),
{
    if a.len() != b.len() {
        return false;
    }
    let mut i: usize = 0;
    while i < a.len()
        invariant
            a@.len() == b@.len(),
            i <= a@.len(),
            forall|k: int| 0 <= k < i ==> a@[k] == b@[k],
        decreases a@.len() - i,
    {
        if a[i] != b[i] {
            return false;
        }
        i = i + 1;
    }
    assert(a@ =~= b@);
    true
}

} // verus!
