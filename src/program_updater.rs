use vstd::prelude::*;

use crate::data_types::data_server::{
    GetPointConfigAnsw as PointConfig, GetProgramConfigAnsw, GetUpdateDataAnsw, Program, ProgramCustom, ProgramHashes,
    ProgramType, Report, ReportType,
};
use crate::events::TerminateRequest;
use crate::execm::{is_run_spec, ExecEntity};
use crate::sendm::{enqueued, SendDataType, SendManager};
use crate::utils::AgentError;
use crate::utils::mos::{format_asset_path, format_program_path, format_temp_arch_path, joined, ARCH_TYPE, TEMP_ARCH_PATH};

verus! {

/// No two entries describe the same program.
pub open spec fn hash_ids_unique(hs: Seq<ProgramHashes>) -> bool {
    forall|i: int, j: int| 0 <= i < hs.len() && 0 <= j < hs.len() && i != j ==> hs[i].id != hs[j].id
}

/// Index of the entry for program `pid`.
pub open spec fn hash_index(hs: Seq<ProgramHashes>, pid: i32, i: int) -> bool {
    0 <= i < hs.len() && hs[i].id == pid && forall|k: int| 0 <= k < i ==> hs[k].id != pid
}

pub open spec fn has_hash_entry(hs: Seq<ProgramHashes>, pid: i32) -> bool {
    exists|i: int| 0 <= i < hs.len() && hs[i].id == pid
}

/// `n` is `o` where the entry of `pid` got the build hash `hash`, or, when
/// `o` had none, `o` with a new entry that holds only that build hash.
pub open spec fn build_hash_set(o: Seq<ProgramHashes>, n: Seq<ProgramHashes>, pid: i32, hash: Vec<u8>) -> bool {
    if has_hash_entry(o, pid) {
        exists|i: int| hash_index(o, pid, i) && n == o.update(i, ProgramHashes { build_hash: hash, ..o[i] })
    } else {
        n.len() == o.len() + 1 && n.subrange(0, o.len() as int) == o && n.last().id == pid
            && n.last().build_hash == hash && n.last().asset_hash is None && n.last().configs@.len() == 0
    }
}

/// Like `build_hash_set`, for the asset hash.
pub open spec fn asset_hash_set(
    o: Seq<ProgramHashes>,
    n: Seq<ProgramHashes>,
    pid: i32,
    hash: Option<Vec<u8>>,
) -> bool {
    if has_hash_entry(o, pid) {
        exists|i: int| hash_index(o, pid, i) && n == o.update(i, ProgramHashes { asset_hash: hash, ..o[i] })
    } else {
        n.len() == o.len() + 1 && n.subrange(0, o.len() as int) == o && n.last().id == pid
            && n.last().build_hash@.len() == 0 && n.last().asset_hash == hash && n.last().configs@.len() == 0
    }
}

/// Index of the entry of config `cid` in a list of config hashes.
pub open spec fn config_index(cs: Seq<(i32, Vec<u8>)>, cid: i32, j: int) -> bool {
    0 <= j < cs.len() && cs[j].0 == cid && forall|k: int| 0 <= k < j ==> cs[k].0 != cid
}

/// `n` is `o` where only the config list of entry `i` changed, to `cs`.
pub open spec fn only_configs_changed(o: Seq<ProgramHashes>, n: Seq<ProgramHashes>, i: int, cs: Seq<(i32, Vec<u8>)>) -> bool {
    &&& n.len() == o.len()
    &&& forall|k: int| 0 <= k < o.len() && k != i ==> n[k] == o[k]
    &&& n[i].id == o[i].id && n[i].build_hash == o[i].build_hash && n[i].asset_hash == o[i].asset_hash
    &&& n[i].configs@ == cs
}

/// The config `cid` is listed in `cs`.
pub open spec fn lists_config(cs: Seq<(i32, Vec<u8>)>, cid: i32) -> bool {
    exists|j: int| 0 <= j < cs.len() && cs[j].0 == cid
}

/// What recording hash `hash` for config `cid` does to entry `i` of `o`,
/// and whether it reports a change (`r`).
pub open spec fn config_hash_set_at(
    o: Seq<ProgramHashes>,
    n: Seq<ProgramHashes>,
    i: int,
    cid: i32,
    hash: Vec<u8>,
    r: bool,
) -> bool {
    let cs = o[i].configs@;
    if lists_config(cs, cid) {
        exists|j: int| config_index(cs, cid, j) && if cs[j].1@ == hash@ {
            n == o && !r
        } else {
            r && only_configs_changed(o, n, i, cs.update(j, (cid, hash)))
        }
    } else {
        r && only_configs_changed(o, n, i, cs.push((cid, hash)))
    }
}

/// What recording hash `hash` for config `cid` of program `pid` does, and
/// whether it reports a change (`r`).
pub open spec fn config_hash_set(
    o: Seq<ProgramHashes>,
    n: Seq<ProgramHashes>,
    pid: i32,
    cid: i32,
    hash: Vec<u8>,
    r: bool,
) -> bool {
    if has_hash_entry(o, pid) {
        exists|i: int| hash_index(o, pid, i) && config_hash_set_at(o, n, i, cid, hash, r)
    } else {
        r && n.len() == o.len() + 1 && n.subrange(0, o.len() as int) == o && n.last().id == pid
            && n.last().build_hash@.len() == 0 && n.last().asset_hash is None
            && n.last().configs@ == seq![(cid, hash)]
    }
}

/// Some entry of program `pid` lists config `cid`.
pub open spec fn records_config(hs: Seq<ProgramHashes>, pid: i32, cid: i32) -> bool {
    exists|k: int| 0 <= k < hs.len() && hs[k].id == pid && lists_config(hs[k].configs@, cid)
}

/// The program is builtin.
pub open spec fn is_builtin_program(p: crate::data_types::data_server::Program) -> bool {
    p.ptype is Builtin
}

/// `x` is an entry of `s`, the first one for its program.
pub open spec fn drawn_from(x: ProgramHashes, s: Seq<ProgramHashes>) -> bool {
    exists|j: int| 0 <= j < s.len() && x == s[j] && forall|m: int| 0 <= m < j ==> s[m].id != s[j].id
}

/// The persisted hashes of every program, as a resource of the kernel.
pub struct ProgramHashesRes(pub Vec<ProgramHashes>);

impl ProgramHashesRes {
    pub open spec fn wf(&self) -> bool {
        hash_ids_unique(self.0@)
    }

    /// The hashes read back from disk, keeping the first entry of each
    /// program should the file list one twice.
    pub fn from_loaded(loaded: Vec<ProgramHashes>) -> (r: ProgramHashesRes)
        ensures
            r.wf(),
            forall|k: int| 0 <= k < loaded@.len() ==> has_hash_entry(r.0@, (#[trigger] loaded@[k]).id),
            forall|k: int| 0 <= k < r.0@.len() ==> drawn_from(#[trigger] r.0@[k], loaded@),
    {
        let ghost all = loaded@;
        let mut rest = loaded;
        let mut res = ProgramHashesRes(Vec::new());
        let mut i: usize = 0;
        let n = rest.len();
        while rest.len() > 0
            invariant
                all.len() == n,
                i + rest@.len() == n,
                rest@ == all.subrange(i as int, n as int),
                res.wf(),
                forall|k: int| 0 <= k < i ==> has_hash_entry(res.0@, (#[trigger] all[k]).id),
                forall|k: int| #![trigger res.0@[k]] 0 <= k < res.0@.len() ==> exists|j: int| 0 <= j < i && res.0@[k] == #[trigger] all[j]
                    && forall|m: int| 0 <= m < j ==> all[m].id != all[j].id,
            decreases rest@.len(),
        {
            let h = rest.remove(0);
            assert(h == all[i as int]);
            match res.index_of(h.id) {
                Some(_) => {},
                None => {
                    let ghost before = res.0@;
                    assert(forall|m: int| 0 <= m < i ==> all[m].id != all[i as int].id) by {
                        assert forall|m: int| 0 <= m < i implies all[m].id != all[i as int].id by {
                            if all[m].id == all[i as int].id {
                                assert(has_hash_entry(before, all[m].id));
                            }
                        }
                    }
                    res.0.push(h);
                    assert forall|k: int| 0 <= k < i implies has_hash_entry(res.0@, (#[trigger] all[k]).id) by {
                        let w = choose|w: int| 0 <= w < before.len() && before[w].id == all[k].id;
                        assert(res.0@[w].id == all[k].id);
                    }
                    assert(res.0@[before.len() as int] == all[i as int]);
                },
            }
            assert(has_hash_entry(res.0@, all[i as int].id));
            i = i + 1;
            assert(rest@ =~= all.subrange(i as int, n as int));
        }
        assert forall|k: int| 0 <= k < res.0@.len() implies drawn_from(#[trigger] res.0@[k], all) by {
            let e = res.0@[k];
            let j = choose|j: int| 0 <= j < i && res.0@[k] == #[trigger] all[j] && forall|m: int| 0 <= m < j ==> all[m].id != all[j].id;
            assert(0 <= j < all.len() && e == all[j]);
        }
        res
    }

    /// Index of the entry of `pid`.
    pub fn index_of(&self, pid: i32) -> (r: Option<usize>)
        ensures
            r is None <==> !has_hash_entry(self.0@, pid),
            r is Some ==> hash_index(self.0@, pid, r->0 as int),
    {
        let mut i: usize = 0;
        while i < self.0.len()
            invariant
                i <= self.0@.len(),
                forall|k: int| 0 <= k < i ==> self.0@[k].id != pid,
            decreases self.0@.len() - i,
        {
            if self.0[i].id == pid {
                return Some(i);
            }
            i = i + 1;
        }
        None
    }

    /// Records the build hash of program `pid`.
    pub fn set_build(&mut self, pid: i32, hash: Vec<u8>)
        requires
            old(self).wf(),
        ensures
            final(self).wf(),
            build_hash_set(old(self).0@, final(self).0@, pid, hash),
    {
        match self.index_of(pid) {
            Some(i) => {
                let mut ph = self.0.remove(i);
                ph.build_hash = hash;
                self.0.insert(i, ph);
                assert(self.0@ =~= old(self).0@.update(i as int, ProgramHashes { build_hash: hash, ..old(self).0@[i as int] }));
            },
            None => {
                self.0.push(ProgramHashes { asset_hash: None, build_hash: hash, id: pid, configs: Vec::new() });
                assert(self.0@.subrange(0, old(self).0@.len() as int) =~= old(self).0@);
            },
        }
    }

    /// Records the asset hash of program `pid`; `None` when it has no asset.
    pub fn set_asset(&mut self, pid: i32, hash: Option<Vec<u8>>)
        requires
            old(self).wf(),
        ensures
            final(self).wf(),
            asset_hash_set(old(self).0@, final(self).0@, pid, hash),
    {
        match self.index_of(pid) {
            Some(i) => {
                let mut ph = self.0.remove(i);
                ph.asset_hash = hash;
                self.0.insert(i, ph);
                assert(self.0@ =~= old(self).0@.update(i as int, ProgramHashes { asset_hash: hash, ..old(self).0@[i as int] }));
            },
            None => {
                self.0.push(ProgramHashes { asset_hash: hash, build_hash: Vec::new(), id: pid, configs: Vec::new() });
                assert(self.0@.subrange(0, old(self).0@.len() as int) =~= old(self).0@);
            },
        }
    }

    /// Records hash `hash` of config `cid` of program `pid`; tells whether
    /// that changed what was recorded.
    pub fn set_config(&mut self, pid: i32, cid: i32, hash: Vec<u8>) -> (r: bool)
        requires
            old(self).wf(),
        ensures
            final(self).wf(),
            config_hash_set(old(self).0@, final(self).0@, pid, cid, hash, r),
            final(self).0@.len() >= old(self).0@.len(),
            forall|k: int| 0 <= k < old(self).0@.len() ==> {
                &&& (#[trigger] final(self).0@[k]).id == old(self).0@[k].id
                &&& final(self).0@[k].build_hash == old(self).0@[k].build_hash
                &&& final(self).0@[k].asset_hash == old(self).0@[k].asset_hash
            },
            has_hash_entry(final(self).0@, pid),
            exists|k: int| 0 <= k < final(self).0@.len() && (#[trigger] final(self).0@[k]).id == pid
                && lists_config(final(self).0@[k].configs@, cid),
            forall|k: int, c: i32| 0 <= k < old(self).0@.len() && lists_config(old(self).0@[k].configs@, c)
                ==> #[trigger] lists_config(final(self).0@[k].configs@, c),
    {
        match self.index_of(pid) {
            Some(i) => {
                let ghost o = self.0@;
                let mut ph = self.0.remove(i);
                let ghost cs = ph.configs@;
                let mut j: usize = 0;
                while j < ph.configs.len()
                    invariant
                        o == old(self).0@,
                        hash_index(o, pid, i as int),
                        hash_ids_unique(o),
                        ph == o[i as int],
                        cs == ph.configs@,
                        self.0@ == o.remove(i as int),
                        j <= cs.len(),
                        forall|k: int| 0 <= k < j ==> cs[k].0 != cid,
                    decreases cs.len() - j,
                {
                    if ph.configs[j].0 == cid {
                        assert(config_index(cs, cid, j as int));
                        if crate::utils::bytes_eq(&ph.configs[j].1, &hash) {
                            self.0.insert(i, ph);
                            assert(self.0@ =~= o);
                            assert(lists_config(cs, cid));
                            assert(config_hash_set_at(o, self.0@, i as int, cid, hash, false));
                            assert(self.0@[i as int].id == pid);
                            assert(lists_config(self.0@[i as int].configs@, cid)) by {
                                assert(self.0@[i as int].configs@[j as int].0 == cid);
                            }
                            return false;
                        }
                        ph.configs[j] = (cid, hash);
                        self.0.insert(i, ph);
                        assert(only_configs_changed(o, self.0@, i as int, cs.update(j as int, (cid, hash))));
                        assert(lists_config(cs, cid));
                        assert(config_hash_set_at(o, self.0@, i as int, cid, hash, true));
                        assert(self.0@[i as int].id == pid);
                        assert(lists_config(self.0@[i as int].configs@, cid)) by {
                            assert(self.0@[i as int].configs@[j as int].0 == cid);
                        }
                        assert forall|k: int, c: i32| 0 <= k < o.len() && lists_config(o[k].configs@, c)
                            implies #[trigger] lists_config(self.0@[k].configs@, c) by {
                            if k == i as int {
                                let w = choose|w: int| 0 <= w < o[k].configs@.len() && o[k].configs@[w].0 == c;
                                assert(self.0@[k].configs@[w].0 == c);
                            }
                        }
                        return true;
                    }
                    j = j + 1;
                }
                ph.configs.push((cid, hash));
                self.0.insert(i, ph);
                assert(only_configs_changed(o, self.0@, i as int, cs.push((cid, hash))));
                assert(config_hash_set_at(o, self.0@, i as int, cid, hash, true));
                assert(self.0@[i as int].id == pid);
                assert(lists_config(self.0@[i as int].configs@, cid)) by {
                    assert(self.0@[i as int].configs@[cs.len() as int].0 == cid);
                }
                assert forall|k: int, c: i32| 0 <= k < o.len() && lists_config(o[k].configs@, c)
                    implies #[trigger] lists_config(self.0@[k].configs@, c) by {
                    if k == i as int {
                        let w = choose|w: int| 0 <= w < o[k].configs@.len() && o[k].configs@[w].0 == c;
                        assert(self.0@[k].configs@[w].0 == c);
                    }
                }
                true
            },
            None => {
                self.0.push(ProgramHashes { id: pid, asset_hash: None, build_hash: Vec::new(), configs: vec![(cid, hash)] });
                assert(self.0@.subrange(0, old(self).0@.len() as int) =~= old(self).0@);
                assert(self.0@.last().configs@ =~= seq![(cid, hash)]);
                assert(self.0@[old(self).0@.len() as int].id == pid);
                assert(lists_config(self.0@[old(self).0@.len() as int].configs@, cid)) by {
                    assert(self.0@[old(self).0@.len() as int].configs@[0].0 == cid);
                }
                assert forall|k: int, c: i32| 0 <= k < old(self).0@.len() && lists_config(old(self).0@[k].configs@, c)
                    implies #[trigger] lists_config(self.0@[k].configs@, c) by {
                    assert(self.0@[k] == self.0@.subrange(0, old(self).0@.len() as int)[k]);
                }
                true
            },
        }
    }

    /// Forgets every config hash; they are recomputed from disk.
    pub fn clear_configs(&mut self)
        requires
            old(self).wf(),
        ensures
            final(self).wf(),
            final(self).0@.len() == old(self).0@.len(),
            forall|k: int| 0 <= k < old(self).0@.len() ==> {
                &&& final(self).0@[k].id == old(self).0@[k].id
                &&& final(self).0@[k].build_hash == old(self).0@[k].build_hash
                &&& final(self).0@[k].asset_hash == old(self).0@[k].asset_hash
                &&& final(self).0@[k].configs@.len() == 0
            },
    {
        let mut i: usize = 0;
        while i < self.0.len()
            invariant
                i <= self.0@.len(),
                self.0@.len() == old(self).0@.len(),
                forall|k: int| 0 <= k < self.0@.len() ==> {
                    &&& self.0@[k].id == old(self).0@[k].id
                    &&& self.0@[k].build_hash == old(self).0@[k].build_hash
                    &&& self.0@[k].asset_hash == old(self).0@[k].asset_hash
                },
                forall|k: int| 0 <= k < i ==> self.0@[k].configs@.len() == 0,
                forall|k: int| i <= k < self.0@.len() ==> self.0@[k] == old(self).0@[k],
            decreases old(self).0@.len() - i,
        {
            let mut ph = self.0.remove(i);
            ph.configs.clear();
            self.0.insert(i, ph);
            i = i + 1;
        }
    }

    /// Adds an empty entry for each builtin program of `config` that has none.
    pub fn insert_builtin(&mut self, config: &PointConfig)
        requires
            old(self).wf(),
        ensures
            final(self).wf(),
            final(self).0@.len() >= old(self).0@.len(),
            final(self).0@.subrange(0, old(self).0@.len() as int) == old(self).0@,
            forall|p: int| 0 <= p < config.programs@.len() && is_builtin_program(config.programs@[p])
                ==> has_hash_entry(final(self).0@, config.programs@[p].id),
            forall|k: int| old(self).0@.len() <= k < final(self).0@.len() ==> {
                &&& final(self).0@[k].build_hash@.len() == 0
                &&& final(self).0@[k].asset_hash is None
                &&& final(self).0@[k].configs@.len() == 0
                &&& exists|p: int| 0 <= p < config.programs@.len() && is_builtin_program(config.programs@[p])
                    && config.programs@[p].id == final(self).0@[k].id
            },
    {
        let ghost o = self.0@;
        let mut i: usize = 0;
        while i < config.programs.len()
            invariant
                i <= config.programs@.len(),
                hash_ids_unique(self.0@),
                self.0@.len() >= o.len(),
                self.0@.subrange(0, o.len() as int) == o,
                forall|p: int| 0 <= p < i && is_builtin_program(config.programs@[p])
                    ==> has_hash_entry(self.0@, config.programs@[p].id),
                forall|k: int| o.len() <= k < self.0@.len() ==> {
                    &&& self.0@[k].build_hash@.len() == 0
                    &&& self.0@[k].asset_hash is None
                    &&& self.0@[k].configs@.len() == 0
                    &&& exists|p: int| 0 <= p < config.programs@.len() && is_builtin_program(config.programs@[p])
                        && config.programs@[p].id == self.0@[k].id
                },
            decreases config.programs@.len() - i,
        {
            if !config.programs[i].ptype.is_custom() {
                let pid = config.programs[i].id;
                match self.index_of(pid) {
                    Some(_) => {},
                    None => {
                        let ghost before = self.0@;
                        self.0.push(ProgramHashes { id: pid, asset_hash: None, build_hash: Vec::new(), configs: Vec::new() });
                        assert(self.0@.subrange(0, o.len() as int) =~= before.subrange(0, o.len() as int));
                        assert(has_hash_entry(self.0@, pid)) by {
                            assert(self.0@[before.len() as int].id == pid);
                        }
                        assert forall|p: int| 0 <= p < i && is_builtin_program(config.programs@[p])
                            implies has_hash_entry(self.0@, config.programs@[p].id) by {
                            let pi = config.programs@[p].id;
                            let w = choose|w: int| 0 <= w < before.len() && before[w].id == pi;
                            assert(self.0@[w].id == pi);
                        }
                    },
                }
            }
            i = i + 1;
        }
    }
}

/// Which artifact of a program an update replaces.
#[derive(PartialEq, Eq, Structural, Clone, Copy, Debug)]
pub enum UpdateType {
    Build,
    /// The flag tells whether the program still has an asset.
    Asset(bool),
    Config(i32),
}

/// What was fetched for an update: the staged archive name and its hash,
/// or the config body.
pub enum UpdateData {
    Build(String, Vec<u8>),
    Asset(Option<(String, Vec<u8>)>),
    Config(GetProgramConfigAnsw),
}

/// Where an update stands.
#[derive(PartialEq, Eq, Structural, Clone, Copy, Debug)]
pub enum UpdateState {
    New,
    GetData,
    Terminate,
    Apply,
}

/// One in-flight update of one program.
pub struct ProgramUpdate {
    pub pid: i32,
    pub utype: UpdateType,
    pub data: Option<UpdateData>,
    pub state: UpdateState,
}

impl ProgramUpdate {
    /// Two updates are the same task when they target the same program
    /// with the same kind.
    pub fn same_task(&self, other: &ProgramUpdate) -> (r: bool)
        ensures
            r == (self.pid == other.pid && self.utype == other.utype),
    {
        self.pid == other.pid && self.utype == other.utype
    }
}

/// What a background worker is to fetch for an update.
#[derive(PartialEq, Eq, Structural, Clone, Copy, Debug)]
pub enum FetchRequest {
    Build(i32),
    Asset(i32),
    Config(i32),
}

/// The update, if any, that an answer of the control plane calls for.
pub open spec fn planned_update(answ: GetUpdateDataAnsw, config: PointConfig) -> Option<(i32, UpdateType)> {
    match answ {
        GetUpdateDataAnsw::Build(pid) => Some((pid, UpdateType::Build)),
        GetUpdateDataAnsw::Asset(pid, exists) => Some((pid, UpdateType::Asset(exists))),
        GetUpdateDataAnsw::Config(cid) => if exists|i: int| config.first_with_config(cid, i) {
            Some((config.programs@[choose|i: int| config.first_with_config(cid, i)].id, UpdateType::Config(cid)))
        } else {
            None
        },
        GetUpdateDataAnsw::Nothing => None,
    }
}

pub open spec fn has_task(updates: Seq<ProgramUpdate>, pid: i32, utype: UpdateType) -> bool {
    exists|k: int| 0 <= k < updates.len() && updates[k].pid == pid && updates[k].utype == utype
}

/// Spawns the update an answer of the control plane calls for, unless the
/// same task is already in flight; tells whether one was spawned.
pub fn spawn_update(updates: &mut Vec<ProgramUpdate>, answ: GetUpdateDataAnsw, config: &PointConfig) -> (r: bool)
    ensures
        match planned_update(answ, *config) {
            Some((pid, utype)) => if has_task(old(updates)@, pid, utype) {
                !r && final(updates)@ == old(updates)@
            } else {
                r && final(updates)@.len() == old(updates)@.len() + 1
                    && final(updates)@.subrange(0, old(updates)@.len() as int) == old(updates)@
                    && final(updates)@.last().pid == pid && final(updates)@.last().utype == utype
                    && final(updates)@.last().data is None && final(updates)@.last().state == UpdateState::New
            },
            None => !r && final(updates)@ == old(updates)@,
        },
{
    let planned = match answ {
        GetUpdateDataAnsw::Build(pid) => Some((pid, UpdateType::Build)),
        GetUpdateDataAnsw::Asset(pid, exists) => Some((pid, UpdateType::Asset(exists))),
        GetUpdateDataAnsw::Config(cid) => match config.find_program_by_config(cid) {
            Some(pid) => {
                proof {
                    let i = choose|i: int| config.first_with_config(cid, i) && config.programs@[i].id == pid;
                    let j = choose|j: int| config.first_with_config(cid, j);
                    assert(i == j) by {
                        if i < j {
                            assert(!config.programs@[i].has_config(cid));
                        } else if j < i {
                            assert(!config.programs@[j].has_config(cid));
                        }
                    }
                }
                Some((pid, UpdateType::Config(cid)))
            },
            None => {
                assert(!exists|i: int| config.first_with_config(cid, i));
                None
            },
        },
        GetUpdateDataAnsw::Nothing => None,
    };
    match planned {
        Some((pid, utype)) => {
            let mut k: usize = 0;
            while k < updates.len()
                invariant
                    planned_update(answ, *config) == Some((pid, utype)),
                    k <= updates@.len(),
                    updates@ == old(updates)@,
                    forall|j: int| 0 <= j < k ==> !(updates@[j].pid == pid && updates@[j].utype == utype),
                decreases updates@.len() - k,
            {
                if updates[k].pid == pid && updates[k].utype == utype {
                    assert(has_task(old(updates)@, pid, utype));
                    return false;
                }
                k = k + 1;
            }
            updates.push(ProgramUpdate { pid, utype, data: None, state: UpdateState::New });
            assert(updates@.subrange(0, old(updates)@.len() as int) =~= old(updates)@);
            true
        },
        None => false,
    }
}

/// An update after the tick's look at the `New` ones.
pub open spec fn after_new(u: ProgramUpdate) -> (ProgramUpdate, Option<FetchRequest>) {
    if u.state != UpdateState::New {
        (u, None)
    } else {
        match u.utype {
            UpdateType::Build => (ProgramUpdate { state: UpdateState::GetData, ..u }, Some(FetchRequest::Build(u.pid))),
            UpdateType::Asset(true) => (ProgramUpdate { state: UpdateState::GetData, ..u }, Some(FetchRequest::Asset(u.pid))),
            UpdateType::Asset(false) => (ProgramUpdate { state: UpdateState::Terminate, data: Some(UpdateData::Asset(None)), ..u }, None),
            UpdateType::Config(cid) => (ProgramUpdate { state: UpdateState::GetData, ..u }, Some(FetchRequest::Config(cid))),
        }
    }
}

/// Starts every `New` update: a build, an existing asset or a config is to
/// be fetched (the request at the same index), while a removed asset needs
/// nothing fetched and goes straight to `Terminate`.
pub fn sys_new_handler(updates: &mut Vec<ProgramUpdate>) -> (r: Vec<Option<FetchRequest>>)
    ensures
        final(updates)@.len() == old(updates)@.len(),
        r@.len() == old(updates)@.len(),
        forall|i: int| 0 <= i < old(updates)@.len() ==> (final(updates)@[i], r@[i]) == after_new(#[trigger] old(updates)@[i]),
{
    let mut r: Vec<Option<FetchRequest>> = Vec::new();
    let mut i: usize = 0;
    while i < updates.len()
        invariant
            i <= updates@.len(),
            updates@.len() == old(updates)@.len(),
            r@.len() == i,
            forall|k: int| 0 <= k < i ==> (updates@[k], r@[k]) == after_new(#[trigger] old(updates)@[k]),
            forall|k: int| i <= k < updates@.len() ==> updates@[k] == old(updates)@[k],
        decreases updates@.len() - i,
    {
        let u = updates.remove(i);
        if u.state != UpdateState::New {
            r.push(None);
            updates.insert(i, u);
        } else {
            let pid = u.pid;
            match u.utype {
                UpdateType::Build => {
                    r.push(Some(FetchRequest::Build(pid)));
                    updates.insert(i, ProgramUpdate { state: UpdateState::GetData, ..u });
                },
                UpdateType::Asset(exists) => {
                    if exists {
                        r.push(Some(FetchRequest::Asset(pid)));
                        updates.insert(i, ProgramUpdate { state: UpdateState::GetData, ..u });
                    } else {
                        r.push(None);
                        updates.insert(i, ProgramUpdate { state: UpdateState::Terminate, data: Some(UpdateData::Asset(None)), ..u });
                    }
                },
                UpdateType::Config(cid) => {
                    r.push(Some(FetchRequest::Config(cid)));
                    updates.insert(i, ProgramUpdate { state: UpdateState::GetData, ..u });
                },
            }
        }
        i = i + 1;
    }
    r
}

/// The updates of `s` that stay, in order: those that are not `gone`.
pub open spec fn kept(s: Seq<ProgramUpdate>, gone: Seq<bool>) -> Seq<ProgramUpdate>
    decreases s.len(),
{
    if s.len() == 0 {
        Seq::empty()
    } else {
        let rest = kept(s.drop_last(), gone.subrange(0, s.len() - 1));
        if gone[s.len() - 1] {
            rest
        } else {
            rest.push(s.last())
        }
    }
}

/// Takes the outcome of the downloads: `outcomes[i]` is `None` while the
/// fetch of update `i` runs. A fetched update moves to `Terminate` with its
/// data; a failed one is dropped (a later poll retries it), and an integrity
/// failure is reported as `InternalError` at `now`.
pub fn sys_get_handler(
    updates: &mut Vec<ProgramUpdate>,
    outcomes: Vec<Option<Result<UpdateData, AgentError>>>,
    sm: &mut SendManager,
    now: i64,
)
    requires
        outcomes@.len() == old(updates)@.len(),
        old(sm).wf(),
    ensures
        final(sm).wf(),
        final(updates)@ == kept(
            Seq::new(old(updates)@.len(), |i: int| got_data(old(updates)@[i], outcomes@[i])),
            Seq::new(old(updates)@.len(), |i: int| fetch_failed(old(updates)@[i], outcomes@[i])),
        ),
        (final(sm).queue@, final(sm).spill@) == crate::sendm::enqueue_all(
            (old(sm).queue@, old(sm).spill@),
            crate::sendm::reports_for(ReportType::InternalError, integrity_failures(old(updates)@, outcomes@)),
            now,
        ),
{
    let ghost ou = updates@;
    let ghost oo = outcomes@;
    let ghost stepped = Seq::new(ou.len(), |i: int| got_data(ou[i], oo[i]));
    let ghost gone = Seq::new(ou.len(), |i: int| fetch_failed(ou[i], oo[i]));
    let n = updates.len();
    assert(ou.len() == n);
    let mut all = updates.split_off(0);
    let mut outs = outcomes;
    let mut bad: Vec<i32> = Vec::new();
    let mut i: usize = 0;
    assert(kept(stepped.subrange(0, 0), gone.subrange(0, 0)) =~= Seq::<ProgramUpdate>::empty());
    assert(updates@ =~= Seq::<ProgramUpdate>::empty());
    while all.len() > 0
        invariant
            ou.len() <= usize::MAX,
            i + all@.len() == ou.len(),
            all@.len() == outs@.len(),
            all@ == ou.subrange(i as int, ou.len() as int),
            outs@ == oo.subrange(i as int, oo.len() as int),
            ou.len() == oo.len(),
            stepped.len() == ou.len(),
            gone.len() == ou.len(),
            forall|k: int| 0 <= k < ou.len() ==> stepped[k] == got_data(ou[k], oo[k]),
            forall|k: int| 0 <= k < ou.len() ==> gone[k] == fetch_failed(ou[k], oo[k]),
            updates@ == kept(stepped.subrange(0, i as int), gone.subrange(0, i as int)),
            bad@ == integrity_failures(ou.subrange(0, i as int), oo.subrange(0, i as int)),
        decreases all@.len(),
    {
        let u = all.remove(0);
        let o = outs.remove(0);
        proof {
            assert(stepped.subrange(0, i as int + 1).drop_last() =~= stepped.subrange(0, i as int));
            assert(gone.subrange(0, i as int + 1).subrange(0, i as int) =~= gone.subrange(0, i as int));
            assert(ou.subrange(0, i as int + 1).drop_last() =~= ou.subrange(0, i as int));
            assert(oo.subrange(0, i as int + 1).subrange(0, i as int) =~= oo.subrange(0, i as int));
            assert(u == ou[i as int]);
            assert(o == oo[i as int]);
        }
        if u.state == UpdateState::GetData {
            match o {
                Some(Ok(d)) => {
                    updates.push(ProgramUpdate { data: Some(d), state: UpdateState::Terminate, ..u });
                },
                Some(Err(e)) => {
                    if e == AgentError::Integrity {
                        bad.push(u.pid);
                    }
                },
                None => {
                    updates.push(u);
                },
            }
        } else {
            updates.push(u);
        }
        i = i + 1;
        proof {
            assert(all@ =~= ou.subrange(i as int, ou.len() as int));
            assert(outs@ =~= oo.subrange(i as int, oo.len() as int));
        }
    }
    assert(stepped.subrange(0, ou.len() as int) =~= stepped);
    assert(gone.subrange(0, ou.len() as int) =~= gone);
    assert(ou.subrange(0, ou.len() as int) =~= ou);
    assert(oo.subrange(0, oo.len() as int) =~= oo);
    sm.report_each(ReportType::InternalError, &bad, now);
}

/// An update in `GetData` whose fetch succeeded, with its data, now waiting
/// for the program to stop.
pub open spec fn got_data(u: ProgramUpdate, o: Option<Result<UpdateData, AgentError>>) -> ProgramUpdate {
    match o {
        Some(Ok(d)) => if u.state == UpdateState::GetData {
            ProgramUpdate { data: Some(d), state: UpdateState::Terminate, ..u }
        } else {
            u
        },
        _ => u,
    }
}

/// An update in `GetData` whose fetch failed.
pub open spec fn fetch_failed(u: ProgramUpdate, o: Option<Result<UpdateData, AgentError>>) -> bool {
    u.state == UpdateState::GetData && o matches Some(Err(_))
}

/// Programs whose fetch failed its integrity check, in order.
pub open spec fn integrity_failures(us: Seq<ProgramUpdate>, os: Seq<Option<Result<UpdateData, AgentError>>>) -> Seq<i32>
    decreases us.len(),
{
    if us.len() == 0 {
        Seq::empty()
    } else {
        let rest = integrity_failures(us.drop_last(), os.subrange(0, us.len() - 1));
        if us.last().state == UpdateState::GetData && os[us.len() - 1] == Some(Err::<UpdateData, AgentError>(AgentError::Integrity)) {
            rest.push(us.last().pid)
        } else {
            rest
        }
    }
}

/// Stop requests issued for the updates waiting in `Terminate`, in order.
pub open spec fn soft_requests(us: Seq<ProgramUpdate>) -> Seq<TerminateRequest>
    decreases us.len(),
{
    if us.len() == 0 {
        Seq::empty()
    } else {
        let rest = soft_requests(us.drop_last());
        if us.last().state == UpdateState::Terminate {
            rest.push(TerminateRequest { pid: us.last().pid, hard: false })
        } else {
            rest
        }
    }
}

/// An update waiting in `Terminate` after this tick's look at the supervisor.
pub open spec fn after_terminate(u: ProgramUpdate, execs: Seq<ExecEntity>) -> ProgramUpdate {
    if u.state == UpdateState::Terminate && !is_run_spec(execs, u.pid) {
        ProgramUpdate { state: UpdateState::Apply, ..u }
    } else {
        u
    }
}

/// Quiesces the targets of the updates in `Terminate`: asks for a soft
/// stop each tick, and lets the update on to `Apply` only once no child of
/// its program runs.
pub fn sys_terminate_handler(updates: &mut Vec<ProgramUpdate>, execs: &Vec<ExecEntity>, evw: &mut Vec<TerminateRequest>)
    ensures
        final(updates)@.len() == old(updates)@.len(),
        forall|i: int| 0 <= i < old(updates)@.len() ==> final(updates)@[i] == after_terminate(#[trigger] old(updates)@[i], execs@),
        forall|i: int| 0 <= i < old(updates)@.len() && final(updates)@[i].state == UpdateState::Apply
            && old(updates)@[i].state == UpdateState::Terminate ==> !is_run_spec(execs@, #[trigger] final(updates)@[i].pid),
        final(evw)@ == old(evw)@ + soft_requests(old(updates)@),
{
    let mut i: usize = 0;
    assert(old(updates)@.subrange(0, 0) =~= Seq::<ProgramUpdate>::empty());
    assert(evw@ =~= old(evw)@ + soft_requests(old(updates)@.subrange(0, 0)));
    while i < updates.len()
        invariant
            i <= updates@.len(),
            updates@.len() == old(updates)@.len(),
            forall|k: int| 0 <= k < i ==> updates@[k] == after_terminate(#[trigger] old(updates)@[k], execs@),
            forall|k: int| i <= k < updates@.len() ==> updates@[k] == old(updates)@[k],
            evw@ == old(evw)@ + soft_requests(old(updates)@.subrange(0, i as int)),
        decreases updates@.len() - i,
    {
        assert(old(updates)@.subrange(0, i as int + 1).drop_last() =~= old(updates)@.subrange(0, i as int));
        if updates[i].state == UpdateState::Terminate {
            let pid = updates[i].pid;
            let down = crate::execm::terminate(execs, evw, pid, false);
            assert(evw@ =~= old(evw)@ + soft_requests(old(updates)@.subrange(0, i as int + 1)));
            if down {
                let u = updates.remove(i);
                updates.insert(i, ProgramUpdate { state: UpdateState::Apply, ..u });
            }
        } else {
            assert(evw@ =~= old(evw)@ + soft_requests(old(updates)@.subrange(0, i as int + 1)));
        }
        i = i + 1;
    }
    assert(old(updates)@.subrange(0, old(updates)@.len() as int) =~= old(updates)@);
}

/// Takes the updates that reached `Apply` out of the list, in order; the
/// others stay, in order.
pub fn take_ready(updates: &mut Vec<ProgramUpdate>) -> (r: Vec<ProgramUpdate>)
    ensures
        r@ == kept(old(updates)@, Seq::new(old(updates)@.len(), |i: int| old(updates)@[i].state != UpdateState::Apply)),
        final(updates)@ == kept(old(updates)@, Seq::new(old(updates)@.len(), |i: int| old(updates)@[i].state == UpdateState::Apply)),
{
    let ghost ou = updates@;
    let ghost not_ready = Seq::new(ou.len(), |i: int| ou[i].state != UpdateState::Apply);
    let ghost ready = Seq::new(ou.len(), |i: int| ou[i].state == UpdateState::Apply);
    let n = updates.len();
    let mut all = updates.split_off(0);
    let mut r: Vec<ProgramUpdate> = Vec::new();
    let mut i: usize = 0;
    assert(ou.subrange(0, 0) =~= Seq::<ProgramUpdate>::empty());
    assert(updates@ =~= Seq::<ProgramUpdate>::empty());
    while all.len() > 0
        invariant
            ou.len() == n,
            i + all@.len() == n,
            all@ == ou.subrange(i as int, n as int),
            not_ready.len() == n,
            ready.len() == n,
            forall|k: int| 0 <= k < n ==> not_ready[k] == (ou[k].state != UpdateState::Apply),
            forall|k: int| 0 <= k < n ==> ready[k] == (ou[k].state == UpdateState::Apply),
            r@ == kept(ou.subrange(0, i as int), not_ready.subrange(0, i as int)),
            updates@ == kept(ou.subrange(0, i as int), ready.subrange(0, i as int)),
        decreases all@.len(),
    {
        let u = all.remove(0);
        proof {
            assert(ou.subrange(0, i as int + 1).drop_last() =~= ou.subrange(0, i as int));
            assert(not_ready.subrange(0, i as int + 1).subrange(0, i as int) =~= not_ready.subrange(0, i as int));
            assert(ready.subrange(0, i as int + 1).subrange(0, i as int) =~= ready.subrange(0, i as int));
            assert(u == ou[i as int]);
        }
        if u.state == UpdateState::Apply {
            r.push(u);
        } else {
            updates.push(u);
        }
        i = i + 1;
        assert(all@ =~= ou.subrange(i as int, n as int));
    }
    assert(ou.subrange(0, n as int) =~= ou);
    assert(not_ready.subrange(0, n as int) =~= not_ready);
    assert(ready.subrange(0, n as int) =~= ready);
    r
}

/// Paths of the directory swap that installs a new build: the program
/// directory, the `.temp` sibling that keeps the asset directory and the
/// config files across the swap, and the staged archive.
pub struct SwapPlan {
    pub program_dir: String,
    pub temp_dir: String,
    /// For each config of the program: its path, and where it is kept.
    pub configs: Vec<(String, String)>,
    /// The asset directory, and where it is kept.
    pub asset: (String, String),
    pub arch_path: String,
}

pub open spec fn temp_arch_of(arch: Seq<char>) -> Seq<char> {
    joined(TEMP_ARCH_PATH@, arch) + seq!['.'] + ARCH_TYPE@
}

/// The swap plan for program `name` of `bin_path`, installing archive `arch`.
pub open spec fn swap_plan_of(plan: SwapPlan, pc: ProgramCustom, name: Seq<char>, arch: Seq<char>, bin_path: Seq<char>) -> bool {
    let dir = joined(bin_path, name);
    let temp = dir + ".temp"@;
    &&& plan.program_dir@ == dir
    &&& plan.temp_dir@ == temp
    &&& plan.configs@.len() == pc.configs@.len()
    &&& forall|i: int| 0 <= i < pc.configs@.len() ==> {
        &&& (#[trigger] plan.configs@[i]).0@ == joined(dir, pc.configs@[i].1@)
        &&& plan.configs@[i].1@ == joined(temp, pc.configs@[i].1@)
    }
    &&& plan.asset.0@ == joined(dir, "asset"@)
    &&& plan.asset.1@ == joined(temp, "asset"@)
    &&& plan.arch_path@ == temp_arch_of(arch)
}

/// Lays out the directory swap that installs build archive `temp_arch` for
/// program `name`, keeping its asset directory and its config files.
pub fn setup_program_plan(pc: &ProgramCustom, name: &str, temp_arch: &str, bin_path: &str) -> (r: SwapPlan)
    ensures
        swap_plan_of(r, *pc, name@, temp_arch@, bin_path@),
{
    let program_dir = format_program_path(name, bin_path);
    let mut temp_dir = program_dir.clone();
    temp_dir.append(".temp");
    let mut configs: Vec<(String, String)> = Vec::new();
    let mut i: usize = 0;
    while i < pc.configs.len()
        invariant
            i <= pc.configs@.len(),
            configs@.len() == i,
            program_dir@ == joined(bin_path@, name@),
            temp_dir@ == joined(bin_path@, name@) + ".temp"@,
            forall|k: int| 0 <= k < i ==> {
                &&& (#[trigger] configs@[k]).0@ == joined(program_dir@, pc.configs@[k].1@)
                &&& configs@[k].1@ == joined(temp_dir@, pc.configs@[k].1@)
            },
        decreases pc.configs@.len() - i,
    {
        let orig = crate::utils::mos::join_path(program_dir.as_str(), pc.configs[i].1.as_str());
        let kept_at = crate::utils::mos::join_path(temp_dir.as_str(), pc.configs[i].1.as_str());
        configs.push((orig, kept_at));
        i = i + 1;
    }
    let asset_orig = crate::utils::mos::join_path(program_dir.as_str(), "asset");
    let asset_kept = crate::utils::mos::join_path(temp_dir.as_str(), "asset");
    let arch_path = format_temp_arch_path(temp_arch);
    SwapPlan { program_dir, temp_dir, configs, asset: (asset_orig, asset_kept), arch_path }
}

/// A filesystem change that applies an update.
pub enum ApplyAction {
    /// Swap in a new build.
    Build(SwapPlan),
    /// Empty the asset directory and unpack the archive at `arch_path` into it.
    SetupAsset { asset_dir: String, arch_path: String },
    /// Remove the asset directory.
    RemoveAsset { asset_dir: String },
    /// Write `data` to `path`, creating its parent directories.
    WriteConfig { path: String, data: Vec<u8> },
}

/// What a successful apply records.
pub enum Applied {
    Build(Vec<u8>),
    Asset(Option<Vec<u8>>),
    Config(i32),
}

/// The first program of `config` with id `pid`.
pub open spec fn program_of(config: PointConfig, pid: i32) -> Program {
    config.programs@[choose|i: int| config.first_with_id(pid, i)]
}

/// An update in `Apply` can be applied: its program is in the config and
/// is custom, it carries fetched data, and a config update names a config
/// that the program lists.
pub open spec fn applicable(u: ProgramUpdate, config: PointConfig) -> bool {
    &&& config.has_program(u.pid)
    &&& program_of(config, u.pid).ptype is Custom
    &&& u.data is Some
    &&& (u.data->0 is Config ==> (u.utype matches UpdateType::Config(cid) && program_of(config, u.pid).has_config(cid)))
}

/// What `plan_apply` gives for update `u` under `config`.
pub open spec fn apply_planned(u: ProgramUpdate, config: PointConfig, r: Result<(ApplyAction, Applied), Report>) -> bool {
    &&& (r is Ok <==> applicable(u, config))
    &&& (r is Err ==> r->Err_0.rtype == ReportType::InternalError && r->Err_0.program_id == Some(u.pid)
            && r->Err_0.delay == 0 && r->Err_0.descr is Some)
    &&& (r is Ok ==> {
        let p = program_of(config, u.pid);
        let pc = p.ptype->Custom_0;
        let dir = joined(config.bin_path@, p.name@);
        let (a, d) = r->Ok_0;
        match u.data->0 {
            UpdateData::Build(arch, hash) => a matches ApplyAction::Build(plan)
                && swap_plan_of(plan, pc, p.name@, arch@, config.bin_path@) && d == Applied::Build(hash),
            UpdateData::Asset(Some((arch, hash))) => a matches ApplyAction::SetupAsset { asset_dir, arch_path }
                && asset_dir@ == joined(dir, "asset"@) && arch_path@ == temp_arch_of(arch@)
                && d == Applied::Asset(Some(hash)),
            UpdateData::Asset(None) => a matches ApplyAction::RemoveAsset { asset_dir }
                && asset_dir@ == joined(dir, "asset"@) && d == Applied::Asset(None),
            UpdateData::Config(c) => (a matches ApplyAction::WriteConfig { path, data }
                && data == c.data && (u.utype matches UpdateType::Config(cid) && d == Applied::Config(cid)
                && exists|j: int| 0 <= j < pc.configs@.len() && pc.configs@[j].0 == cid
                    && path@ == joined(dir, pc.configs@[j].1@))),
        }
    })
}

/// Turns an update that reached `Apply` into the filesystem change to make
/// and what to record once it succeeded; or, when it cannot be applied, the
/// `InternalError` report to send.
pub fn plan_apply(u: ProgramUpdate, config: &PointConfig) -> (r: Result<(ApplyAction, Applied), Report>)
    ensures
        apply_planned(u, *config, r),
{
    let pid = u.pid;
    let idx = match config.program_index(pid) {
        Some(i) => i,
        None => {
            return Err(Report { delay: 0, rtype: ReportType::InternalError, program_id: Some(pid), descr: crate::utils::some_str("program not found") });
        },
    };
    proof {
        let c = choose|i: int| config.first_with_id(pid, i);
        assert(c == idx as int) by {
            if c < idx as int {
                assert(config.programs@[c].id != pid);
            } else if (idx as int) < c {
                assert(config.programs@[idx as int].id != pid);
            }
        }
    }
    let p = &config.programs[idx];
    let pc = match &p.ptype {
        ProgramType::Custom(pc) => pc,
        ProgramType::Builtin => {
            return Err(Report {
                delay: 0,
                rtype: ReportType::InternalError,
                program_id: Some(pid),
                descr: crate::utils::some_str("update for non custom program not supported"),
            });
        },
    };
    let utype = u.utype;
    match u.data {
        None => Err(Report { delay: 0, rtype: ReportType::InternalError, program_id: Some(pid), descr: crate::utils::some_str("no data fetched") }),
        Some(UpdateData::Build(arch, hash)) => {
            let plan = setup_program_plan(pc, p.name.as_str(), arch.as_str(), config.bin_path.as_str());
            Ok((ApplyAction::Build(plan), Applied::Build(hash)))
        },
        Some(UpdateData::Asset(Some((arch, hash)))) => {
            let asset_dir = format_asset_path(p.name.as_str(), config.bin_path.as_str());
            let arch_path = format_temp_arch_path(arch.as_str());
            Ok((ApplyAction::SetupAsset { asset_dir, arch_path }, Applied::Asset(Some(hash))))
        },
        Some(UpdateData::Asset(None)) => {
            let asset_dir = format_asset_path(p.name.as_str(), config.bin_path.as_str());
            Ok((ApplyAction::RemoveAsset { asset_dir }, Applied::Asset(None)))
        },
        Some(UpdateData::Config(c)) => {
            let cid = match utype {
                UpdateType::Config(cid) => cid,
                _ => {
                    return Err(Report { delay: 0, rtype: ReportType::InternalError, program_id: Some(pid), descr: crate::utils::some_str("config data for a non-config update") });
                },
            };
            match pc.get_config_path_by_id(cid) {
                Some(rel) => {
                    let dir = format_program_path(p.name.as_str(), config.bin_path.as_str());
                    let path = crate::utils::mos::join_path(dir.as_str(), rel.as_str());
                    Ok((ApplyAction::WriteConfig { path, data: c.data }, Applied::Config(cid)))
                },
                None => Err(Report { delay: 0, rtype: ReportType::InternalError, program_id: Some(pid), descr: crate::utils::some_str("config not found") }),
            }
        },
    }
}

/// Takes the outcome of applying an update to program `pid`. On success the
/// new hash is recorded (a build's or an asset's; a config's is read back
/// from disk when the hashes are saved), the typed success report is sent,
/// and the result tells that the hashes are to be saved. On failure the
/// hashes stay as they were, so the next poll retries, and `InternalError`
/// is reported.
pub fn finish_apply(pid: i32, applied: Applied, ok: bool, hashes: &mut ProgramHashesRes, sm: &mut SendManager, now: i64) -> (changed: bool)
    requires
        old(hashes).wf(),
        old(sm).wf(),
    ensures
        final(hashes).wf(),
        final(sm).wf(),
        changed == ok,
        !ok ==> final(hashes).0@ == old(hashes).0@ && enqueued(*old(sm), *final(sm), SendDataType::Report(Report {
            delay: 0, rtype: ReportType::InternalError, program_id: Some(pid), descr: None,
        }), now),
        ok ==> match applied {
            Applied::Build(h) => build_hash_set(old(hashes).0@, final(hashes).0@, pid, h)
                && enqueued(*old(sm), *final(sm), SendDataType::Report(Report {
                    delay: 0, rtype: ReportType::BuildUpdate, program_id: Some(pid), descr: None,
                }), now),
            Applied::Asset(h) => asset_hash_set(old(hashes).0@, final(hashes).0@, pid, h)
                && enqueued(*old(sm), *final(sm), SendDataType::Report(Report {
                    delay: 0, rtype: ReportType::AssetUpdate, program_id: Some(pid), descr: None,
                }), now),
            Applied::Config(_) => final(hashes).0@ == old(hashes).0@
                && enqueued(*old(sm), *final(sm), SendDataType::Report(Report {
                    delay: 0, rtype: ReportType::ConfigUpdate, program_id: Some(pid), descr: None,
                }), now),
        },
{
    if !ok {
        sm.report_at(Report { delay: 0, rtype: ReportType::InternalError, program_id: Some(pid), descr: None }, now);
        return false;
    }
    match applied {
        Applied::Build(h) => {
            hashes.set_build(pid, h);
            sm.report_at(Report { delay: 0, rtype: ReportType::BuildUpdate, program_id: Some(pid), descr: None }, now);
        },
        Applied::Asset(h) => {
            hashes.set_asset(pid, h);
            sm.report_at(Report { delay: 0, rtype: ReportType::AssetUpdate, program_id: Some(pid), descr: None }, now);
        },
        Applied::Config(_) => {
            sm.report_at(Report { delay: 0, rtype: ReportType::ConfigUpdate, program_id: Some(pid), descr: None }, now);
        },
    }
    true
}

/// Right after a successful build apply, the hash recorded for the program
/// is the hash of the installed archive.
pub proof fn lemma_build_hash_persisted(o: Seq<ProgramHashes>, n: Seq<ProgramHashes>, pid: i32, hash: Vec<u8>)
    requires
        hash_ids_unique(o),
        build_hash_set(o, n, pid, hash),
    ensures
        exists|i: int| hash_index(n, pid, i) && n[i].build_hash == hash,
{
    if has_hash_entry(o, pid) {
        let i = choose|i: int| hash_index(o, pid, i) && n == o.update(i, ProgramHashes { build_hash: hash, ..o[i] });
        assert(hash_index(n, pid, i));
    } else {
        let i = n.len() - 1;
        assert forall|k: int| 0 <= k < i implies n[k].id != pid by {
            assert(n[k] == n.subrange(0, o.len() as int)[k]);
        }
        assert(hash_index(n, pid, i));
    }
}

/// Right after a successful asset apply, the asset hash recorded for the
/// program is the hash of the unpacked archive, or none when the asset was
/// removed.
pub proof fn lemma_asset_hash_persisted(o: Seq<ProgramHashes>, n: Seq<ProgramHashes>, pid: i32, hash: Option<Vec<u8>>)
    requires
        hash_ids_unique(o),
        asset_hash_set(o, n, pid, hash),
    ensures
        exists|i: int| hash_index(n, pid, i) && n[i].asset_hash == hash,
{
    if has_hash_entry(o, pid) {
        let i = choose|i: int| hash_index(o, pid, i) && n == o.update(i, ProgramHashes { asset_hash: hash, ..o[i] });
        assert(hash_index(n, pid, i));
    } else {
        let i = n.len() - 1;
        assert forall|k: int| 0 <= k < i implies n[k].id != pid by {
            assert(n[k] == n.subrange(0, o.len() as int)[k]);
        }
        assert(hash_index(n, pid, i));
    }
}

/// A control plane answer of `Nothing` spawns no update.
pub proof fn lemma_nothing_spawns_nothing(config: PointConfig)
    ensures
        planned_update(GetUpdateDataAnsw::Nothing, config) is None,
{
}

/// An asset announced as gone needs no download: its update goes from
/// `New` straight to `Terminate`, carrying no archive. (`plan_apply` then
/// turns it into the removal of the asset directory, and `finish_apply`
/// clears the asset hash.)
pub proof fn lemma_missing_asset_removed(u: ProgramUpdate)
    requires
        u.state == UpdateState::New,
        u.utype == UpdateType::Asset(false),
    ensures
        after_new(u).1 is None,
        after_new(u).0.state == UpdateState::Terminate,
        after_new(u).0.data == Some(UpdateData::Asset(None)),
{
}

/// The configs of every custom program, with the path of each file under
/// `bin_path`, for their hashes to be read from disk.
pub open spec fn config_targets_of(config: PointConfig) -> Seq<(i32, i32, Seq<char>)>
    decreases config.programs@.len(),
{
    config_targets_upto(config, config.programs@.len() as int)
}

pub open spec fn program_config_targets(p: Program, bin_path: Seq<char>) -> Seq<(i32, i32, Seq<char>)> {
    match p.ptype {
        ProgramType::Custom(c) => c.configs@.map_values(|cfg: (i32, String)| (p.id, cfg.0, joined(joined(bin_path, p.name@), cfg.1@))),
        ProgramType::Builtin => Seq::empty(),
    }
}

pub open spec fn config_targets_upto(config: PointConfig, n: int) -> Seq<(i32, i32, Seq<char>)>
    decreases n,
{
    if n <= 0 {
        Seq::empty()
    } else {
        config_targets_upto(config, n - 1) + program_config_targets(config.programs@[n - 1], config.bin_path@)
    }
}

pub open spec fn target_views(v: Seq<(i32, i32, String)>) -> Seq<(i32, i32, Seq<char>)> {
    v.map_values(|t: (i32, i32, String)| (t.0, t.1, t.2@))
}

/// Program id, config id and file path of every config of every custom
/// program, in config order.
pub fn get_config_targets(config: &PointConfig) -> (r: Vec<(i32, i32, String)>)
    ensures
        target_views(r@) == config_targets_of(*config),
{
    let mut r: Vec<(i32, i32, String)> = Vec::new();
    let mut i: usize = 0;
    assert(target_views(r@) =~= config_targets_upto(*config, 0));
    while i < config.programs.len()
        invariant
            i <= config.programs@.len(),
            target_views(r@) == config_targets_upto(*config, i as int),
        decreases config.programs@.len() - i,
    {
        let p = &config.programs[i];
        match &p.ptype {
            ProgramType::Custom(c) => {
                let dir = format_program_path(p.name.as_str(), config.bin_path.as_str());
                let ghost base = target_views(r@);
                let mut j: usize = 0;
                while j < c.configs.len()
                    invariant
                        i < config.programs@.len(),
                        *p == config.programs@[i as int],
                        p.ptype == ProgramType::Custom(*c),
                        dir@ == joined(config.bin_path@, p.name@),
                        j <= c.configs@.len(),
                        base == config_targets_upto(*config, i as int),
                        target_views(r@) == base + program_config_targets(*p, config.bin_path@).subrange(0, j as int),
                    decreases c.configs@.len() - j,
                {
                    let path = crate::utils::mos::join_path(dir.as_str(), c.configs[j].1.as_str());
                    let ghost pt = program_config_targets(*p, config.bin_path@);
                    assert(pt.len() == c.configs@.len());
                    assert(pt[j as int] == (p.id, c.configs@[j as int].0, path@));
                    let ghost prev = r@;
                    r.push((p.id, c.configs[j].0, path));
                    assert(target_views(r@) =~= target_views(prev).push(pt[j as int]));
                    assert(pt.subrange(0, j as int + 1) =~= pt.subrange(0, j as int).push(pt[j as int]));
                    assert(target_views(r@) =~= base + program_config_targets(*p, config.bin_path@).subrange(0, j as int + 1));
                    j = j + 1;
                }
                assert(program_config_targets(*p, config.bin_path@).subrange(0, j as int) =~= program_config_targets(*p, config.bin_path@));
            },
            ProgramType::Builtin => {
                assert(target_views(r@) =~= config_targets_upto(*config, i as int + 1));
            },
        }
        i = i + 1;
    }
    r
}

/// Replaces the recorded config hashes by those just read from disk, given
/// as (program id, config id, hash); tells whether any of them changed.
/// Build and asset hashes are left as they were.
pub fn update_config_hashes(hashes: &mut ProgramHashesRes, rhashes: Vec<(i32, i32, Vec<u8>)>) -> (changes: bool)
    requires
        old(hashes).wf(),
    ensures
        final(hashes).wf(),
        final(hashes).0@.len() >= old(hashes).0@.len(),
        forall|k: int| 0 <= k < old(hashes).0@.len() ==> {
            &&& (#[trigger] final(hashes).0@[k]).id == old(hashes).0@[k].id
            &&& final(hashes).0@[k].build_hash == old(hashes).0@[k].build_hash
            &&& final(hashes).0@[k].asset_hash == old(hashes).0@[k].asset_hash
        },
        forall|k: int| 0 <= k < rhashes@.len() ==> has_hash_entry(final(hashes).0@, (#[trigger] rhashes@[k]).0),
        forall|k: int| 0 <= k < rhashes@.len() ==> records_config(final(hashes).0@, (#[trigger] rhashes@[k]).0, rhashes@[k].1),
        changes == (rhashes@.len() > 0),
{
    hashes.clear_configs();
    let mut changes = false;
    let mut rs = rhashes;
    let ghost all = rs@;
    let mut i: usize = 0;
    let n = rs.len();
    while rs.len() > 0
        invariant
            hashes.wf(),
            all.len() == n,
            i + rs@.len() == all.len(),
            rs@ == all.subrange(i as int, all.len() as int),
            hashes.0@.len() >= old(hashes).0@.len(),
            forall|k: int| 0 <= k < old(hashes).0@.len() ==> {
                &&& (#[trigger] hashes.0@[k]).id == old(hashes).0@[k].id
                &&& hashes.0@[k].build_hash == old(hashes).0@[k].build_hash
                &&& hashes.0@[k].asset_hash == old(hashes).0@[k].asset_hash
            },
            forall|k: int| 0 <= k < i ==> has_hash_entry(hashes.0@, (#[trigger] all[k]).0),
            forall|k: int| 0 <= k < i ==> records_config(hashes.0@, (#[trigger] all[k]).0, all[k].1),
            changes == (i > 0),
            i == 0 ==> forall|k: int| 0 <= k < hashes.0@.len() ==> (#[trigger] hashes.0@[k]).configs@.len() == 0,
        decreases rs@.len(),
    {
        let (pid, cid, hash) = rs.remove(0);
        let ghost before = hashes.0@;
        let ch = hashes.set_config(pid, cid, hash);
        proof {
            if i == 0 && has_hash_entry(before, pid) {
                let x = choose|x: int| hash_index(before, pid, x) && config_hash_set_at(before, hashes.0@, x, cid, hash, ch);
                assert(before[x].configs@.len() == 0);
                assert(!lists_config(before[x].configs@, cid));
            }
            assert(all[i as int] == (pid, cid, hash));
            assert forall|k: int| 0 <= k < i + 1 implies records_config(hashes.0@, (#[trigger] all[k]).0, all[k].1) by {
                if k < i {
                    let w = choose|w: int| 0 <= w < before.len() && before[w].id == all[k].0 && lists_config(before[w].configs@, all[k].1);
                    assert(hashes.0@[w].id == all[k].0);
                    assert(lists_config(hashes.0@[w].configs@, all[k].1));
                }
            }
            assert forall|k: int| 0 <= k < i + 1 implies has_hash_entry(hashes.0@, (#[trigger] all[k]).0) by {
                if k < i {
                    let q = all[k].0;
                    let w = choose|w: int| 0 <= w < before.len() && before[w].id == q;
                    assert(hashes.0@[w].id == q);
                }
            }
        }
        if ch {
            changes = true;
        }
        i = i + 1;
        assert(rs@ =~= all.subrange(i as int, all.len() as int));
    }
    changes
}

/// The hashes to send with an update check: the recorded ones, an empty
/// entry for each builtin program that has none, and the config hashes
/// just read from disk.
pub fn build_update_query(snapshot: ProgramHashesRes, config: &PointConfig, rhashes: Vec<(i32, i32, Vec<u8>)>) -> (r: Vec<ProgramHashes>)
    requires
        snapshot.wf(),
    ensures
        hash_ids_unique(r@),
        r@.len() >= snapshot.0@.len(),
        forall|k: int| 0 <= k < snapshot.0@.len() ==> {
            &&& (#[trigger] r@[k]).id == snapshot.0@[k].id
            &&& r@[k].build_hash == snapshot.0@[k].build_hash
            &&& r@[k].asset_hash == snapshot.0@[k].asset_hash
        },
        forall|p: int| 0 <= p < config.programs@.len() && is_builtin_program(config.programs@[p])
            ==> has_hash_entry(r@, config.programs@[p].id),
        forall|k: int| 0 <= k < rhashes@.len() ==> has_hash_entry(r@, (#[trigger] rhashes@[k]).0),
        forall|k: int| 0 <= k < rhashes@.len() ==> records_config(r@, (#[trigger] rhashes@[k]).0, rhashes@[k].1),
{
    let mut h = snapshot;
    let ghost o = h.0@;
    h.insert_builtin(config);
    let ghost mid = h.0@;
    proof {
        assert forall|k: int| 0 <= k < o.len() implies (#[trigger] mid[k]) == o[k] by {
            assert(mid[k] == mid.subrange(0, o.len() as int)[k]);
        }
    }
    update_config_hashes(&mut h, rhashes);
    proof {
        assert forall|p: int| 0 <= p < config.programs@.len() && is_builtin_program(config.programs@[p])
            implies has_hash_entry(h.0@, config.programs@[p].id) by {
            let w = choose|w: int| 0 <= w < mid.len() && mid[w].id == config.programs@[p].id;
            assert(h.0@[w].id == mid[w].id);
        }
    }
    h.0
}

/// An asset announced as gone, once its program is quiesced, is applied by
/// removing the program's asset directory; a successful apply then leaves
/// no asset hash recorded for the program.
pub proof fn lemma_missing_asset_cleared(
    u: ProgramUpdate,
    config: PointConfig,
    r: Result<(ApplyAction, Applied), Report>,
    o: Seq<ProgramHashes>,
    n: Seq<ProgramHashes>,
)
    requires
        u.state == UpdateState::New,
        u.utype == UpdateType::Asset(false),
        config.has_program(u.pid),
        program_of(config, u.pid).ptype is Custom,
        apply_planned(after_new(u).0, config, r),
        hash_ids_unique(o),
        asset_hash_set(o, n, u.pid, None),
    ensures
        r matches Ok((ApplyAction::RemoveAsset { asset_dir }, Applied::Asset(None)))
            && asset_dir@ == joined(joined(config.bin_path@, program_of(config, u.pid).name@), "asset"@),
        exists|i: int| hash_index(n, u.pid, i) && n[i].asset_hash is None,
{
    assert(applicable(after_new(u).0, config));
    lemma_asset_hash_persisted(o, n, u.pid, None);
}

} // verus!
