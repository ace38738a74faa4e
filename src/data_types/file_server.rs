use vstd::prelude::*;

verus! {

/// Which artifact of a program the file port is asked for.
#[derive(PartialEq, Eq, Structural, Clone, Copy, Debug)]
pub enum ResourceType {
    Build,
    Asset,
}

/// Header sent to the file port to start a download.
pub struct Request {
    pub point_id: i32,
    pub point_program_id: i32,
    pub token: Vec<u8>,
    pub res_type: ResourceType,
}

/// Header the file port answers with: the SHA-256 of the payload that
/// follows, and its size.
pub struct Answer {
    pub hash: Vec<u8>,
    pub fsize: u32,
}

} // verus!
