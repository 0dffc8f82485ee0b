//! The server's job registry, modelled as three relational tables — clients,
//! modules and jobs — with upserts keyed by name or identifier and the
//! lookups the backup protocol needs.

use vstd::prelude::*;

use crate::config::{copy_opt_string, Client};
use crate::job::{BackupJob, BackupType, JobStatus};
use vstd::pervasive::VecAdditionalExecFns;

verus! {

/// A persisted client record.
#[derive(Debug)]
pub struct ClientRow {
    pub id: i64,
    pub config_version: Option<String>,
    pub name: String,
    pub address: String,
    pub port: Option<u32>,
    pub server_address: String,
    pub server_port: Option<u32>,
}

/// The mathematical content of a [`ClientRow`].
#[verifier::ext_equal]
pub struct ClientRowV {
    pub id: i64,
    pub config_version: Option<Seq<char>>,
    pub name: Seq<char>,
    pub address: Seq<char>,
    pub port: Option<u32>,
    pub server_address: Seq<char>,
    pub server_port: Option<u32>,
}

impl DeepView for ClientRow {
    type V = ClientRowV;

    open spec fn deep_view(&self) -> ClientRowV {
        ClientRowV {
            id: self.id,
            config_version: self.config_version.deep_view(),
            name: self.name@,
            address: self.address@,
            port: self.port,
            server_address: self.server_address@,
            server_port: self.server_port,
        }
    }
}

/// A persisted module record.
#[derive(Debug)]
pub struct ModuleRow {
    pub id: i64,
    pub module_type: String,
    pub name: String,
    pub backup_type: Option<BackupType>,
    pub pre_backup_script: Option<String>,
    pub post_backup_script: Option<String>,
    pub pre_restore_script: Option<String>,
    pub post_restore_script: Option<String>,
}

/// The mathematical content of a [`ModuleRow`].
#[verifier::ext_equal]
pub struct ModuleRowV {
    pub id: i64,
    pub module_type: Seq<char>,
    pub name: Seq<char>,
    pub backup_type: Option<BackupType>,
    pub pre_backup_script: Option<Seq<char>>,
    pub post_backup_script: Option<Seq<char>>,
    pub pre_restore_script: Option<Seq<char>>,
    pub post_restore_script: Option<Seq<char>>,
}

impl DeepView for ModuleRow {
    type V = ModuleRowV;

    open spec fn deep_view(&self) -> ModuleRowV {
        ModuleRowV {
            id: self.id,
            module_type: self.module_type@,
            name: self.name@,
            backup_type: self.backup_type,
            pre_backup_script: self.pre_backup_script.deep_view(),
            post_backup_script: self.post_backup_script.deep_view(),
            pre_restore_script: self.pre_restore_script.deep_view(),
            post_restore_script: self.post_restore_script.deep_view(),
        }
    }
}

/// A persisted job record, referring to its module and client rows.
#[derive(Debug)]
pub struct JobRow {
    pub id: i64,
    pub uuid: String,
    pub status: JobStatus,
    pub backup_type: BackupType,
    pub module_id: i64,
    pub client_id: i64,
}

/// The mathematical content of a [`JobRow`].
#[verifier::ext_equal]
pub struct JobRowV {
    pub id: i64,
    pub uuid: Seq<char>,
    pub status: JobStatus,
    pub backup_type: BackupType,
    pub module_id: i64,
    pub client_id: i64,
}

impl DeepView for JobRow {
    type V = JobRowV;

    open spec fn deep_view(&self) -> JobRowV {
        JobRowV {
            id: self.id,
            uuid: self.uuid@,
            status: self.status,
            backup_type: self.backup_type,
            module_id: self.module_id,
            client_id: self.client_id,
        }
    }
}

/// Why a registry operation can fail.
#[derive(Clone, Copy, Debug, PartialEq, Eq, Structural)]
pub enum DbError {
    /// The table has no identifier left to assign.
    IdExhausted,
    /// No row carries the requested key.
    NotFound,
}

/// The server's job registry. Rows keep their insertion order, and each table
/// hands out strictly increasing identifiers.
#[derive(Debug)]
pub struct Db {
    pub clients: Vec<ClientRow>,
    pub modules: Vec<ModuleRow>,
    pub jobs: Vec<JobRow>,
    pub next_client_id: i64,
    pub next_module_id: i64,
    pub next_job_id: i64,
}

/// Whether some module row carries this identifier.
pub open spec fn has_module_id(ms: Seq<ModuleRowV>, id: i64) -> bool {
    exists|k: int| 0 <= k < ms.len() && ms[k].id == id
}

/// Whether some client row carries this identifier.
pub open spec fn has_client_id(cs: Seq<ClientRowV>, id: i64) -> bool {
    exists|k: int| 0 <= k < cs.len() && cs[k].id == id
}

impl Db {
    /// The client table is sound: positive identifiers below the next free
    /// one, strictly increasing in table order, and unique names.
    pub open spec fn clients_wf(self) -> bool {
        let cs = self.clients.deep_view();
        &&& 0 < self.next_client_id
        &&& forall|i: int| 0 <= i < cs.len() ==> 0 < (#[trigger] cs[i]).id < self.next_client_id
        &&& forall|i: int, j: int| 0 <= i < j < cs.len() ==> (#[trigger] cs[i]).id < (#[trigger] cs[j]).id
        &&& forall|i: int, j: int|
            0 <= i < j < cs.len() ==> (#[trigger] cs[i]).name != (#[trigger] cs[j]).name
    }

    /// The module table is sound, in the same way as the client table.
    pub open spec fn modules_wf(self) -> bool {
        let ms = self.modules.deep_view();
        &&& 0 < self.next_module_id
        &&& forall|i: int| 0 <= i < ms.len() ==> 0 < (#[trigger] ms[i]).id < self.next_module_id
        &&& forall|i: int, j: int| 0 <= i < j < ms.len() ==> (#[trigger] ms[i]).id < (#[trigger] ms[j]).id
        &&& forall|i: int, j: int|
            0 <= i < j < ms.len() ==> (#[trigger] ms[i]).name != (#[trigger] ms[j]).name
    }

    /// The job table is sound: identifiers as in the other tables, unique
    /// job identifiers, and every row's module and client references resolve.
    pub open spec fn jobs_wf(self) -> bool {
        let js = self.jobs.deep_view();
        &&& 0 < self.next_job_id
        &&& forall|i: int| 0 <= i < js.len() ==> 0 < (#[trigger] js[i]).id < self.next_job_id
        &&& forall|i: int, j: int| 0 <= i < j < js.len() ==> (#[trigger] js[i]).id < (#[trigger] js[j]).id
        &&& forall|i: int, j: int|
            0 <= i < j < js.len() ==> (#[trigger] js[i]).uuid != (#[trigger] js[j]).uuid
        &&& forall|i: int|
            0 <= i < js.len() ==> has_module_id(self.modules.deep_view(), (#[trigger] js[i]).module_id)
                && has_client_id(self.clients.deep_view(), js[i].client_id)
    }

    /// The whole registry is sound.
    pub open spec fn wf(self) -> bool {
        self.clients_wf() && self.modules_wf() && self.jobs_wf()
    }

    /// An empty registry.
    pub fn new() -> (r: Db)
        ensures
            r.wf(),
            r.clients@.len() == 0,
            r.modules@.len() == 0,
            r.jobs@.len() == 0,
            r.next_client_id == 1,
            r.next_module_id == 1,
            r.next_job_id == 1,
    {
        Db {
            clients: Vec::new(),
            modules: Vec::new(),
            jobs: Vec::new(),
            next_client_id: 1,
            next_module_id: 1,
            next_job_id: 1,
        }
    }
}

/// The row a client record is persisted as, under the given identifier.
pub open spec fn client_row_of(id: i64, c: crate::config::ClientV) -> ClientRowV {
    ClientRowV {
        id: id,
        config_version: c.config_version,
        name: c.name,
        address: c.address,
        port: c.port,
        server_address: c.server_address,
        server_port: c.server_port,
    }
}

/// Whether some client row carries this name.
pub open spec fn client_name_exists(cs: Seq<ClientRowV>, name: Seq<char>) -> bool {
    exists|k: int| 0 <= k < cs.len() && (#[trigger] cs[k]).name == name
}

/// The client table, next identifier and row identifier that an upsert keyed
/// on the record's name produces.
pub open spec fn upsert_client_spec(cs: Seq<ClientRowV>, next: i64, c: crate::config::ClientV) -> (
    Seq<ClientRowV>,
    i64,
    i64,
) {
    if client_name_exists(cs, c.name) {
        let k = choose|k: int| 0 <= k < cs.len() && (#[trigger] cs[k]).name == c.name;
        (cs.update(k, client_row_of(cs[k].id, c)), next, cs[k].id)
    } else {
        (cs.push(client_row_of(next, c)), (next as int + 1) as i64, next)
    }
}

/// The row a module record is persisted as, under the given identifier; the
/// schedule and path lists do not persist.
pub open spec fn module_row_of(id: i64, m: crate::config::BackupModuleV) -> ModuleRowV {
    ModuleRowV {
        id: id,
        module_type: m.module_type,
        name: m.name,
        backup_type: m.backup_type,
        pre_backup_script: m.pre_backup_script,
        post_backup_script: m.post_backup_script,
        pre_restore_script: m.pre_restore_script,
        post_restore_script: m.post_restore_script,
    }
}

/// Whether some module row carries this name.
pub open spec fn module_name_exists(ms: Seq<ModuleRowV>, name: Seq<char>) -> bool {
    exists|k: int| 0 <= k < ms.len() && (#[trigger] ms[k]).name == name
}

/// The module table, next identifier and row identifier that an upsert keyed
/// on the record's name produces.
pub open spec fn upsert_module_spec(
    ms: Seq<ModuleRowV>,
    next: i64,
    m: crate::config::BackupModuleV,
) -> (Seq<ModuleRowV>, i64, i64) {
    if module_name_exists(ms, m.name) {
        let k = choose|k: int| 0 <= k < ms.len() && (#[trigger] ms[k]).name == m.name;
        (ms.update(k, module_row_of(ms[k].id, m)), next, ms[k].id)
    } else {
        (ms.push(module_row_of(next, m)), (next as int + 1) as i64, next)
    }
}

/// The row a job is persisted as, under the given identifiers.
pub open spec fn job_row_of(
    id: i64,
    j: crate::job::BackupJobV,
    module_id: i64,
    client_id: i64,
) -> JobRowV {
    JobRowV {
        id: id,
        uuid: j.uuid,
        status: j.status,
        backup_type: j.backup_type,
        module_id: module_id,
        client_id: client_id,
    }
}

/// Whether some job row carries this job identifier.
pub open spec fn job_uuid_exists(js: Seq<JobRowV>, uuid: Seq<char>) -> bool {
    exists|k: int| 0 <= k < js.len() && (#[trigger] js[k]).uuid == uuid
}

/// The job table, next identifier and row identifier that an upsert keyed on
/// the job's identifier produces.
pub open spec fn upsert_job_spec(
    js: Seq<JobRowV>,
    next: i64,
    j: crate::job::BackupJobV,
    module_id: i64,
    client_id: i64,
) -> (Seq<JobRowV>, i64, i64) {
    if job_uuid_exists(js, j.uuid) {
        let k = choose|k: int| 0 <= k < js.len() && (#[trigger] js[k]).uuid == j.uuid;
        (js.update(k, job_row_of(js[k].id, j, module_id, client_id)), next, js[k].id)
    } else {
        (js.push(job_row_of(next, j, module_id, client_id)), (next as int + 1) as i64, next)
    }
}

impl Db {
    /// Upserts a client record, keyed on its name: an existing row keeps its
    /// identifier and takes the new field values, otherwise a fresh row is
    /// appended under the next identifier. Fails only when the identifier
    /// space is spent.
    pub fn save_client(&mut self, c: &Client) -> (r: Result<i64, DbError>)
        requires
            old(self).wf(),
        ensures
            final(self).wf(),
            final(self).modules == old(self).modules,
            final(self).jobs == old(self).jobs,
            final(self).next_module_id == old(self).next_module_id,
            final(self).next_job_id == old(self).next_job_id,
            match r {
                Ok(id) => {
                    let up = upsert_client_spec(
                        old(self).clients.deep_view(),
                        old(self).next_client_id,
                        c.deep_view(),
                    );
                    &&& final(self).clients.deep_view() == up.0
                    &&& final(self).next_client_id == up.1
                    &&& id == up.2
                },
                Err(e) => {
                    &&& e == DbError::IdExhausted
                    &&& old(self).next_client_id == i64::MAX
                    &&& *final(self) == *old(self)
                    &&& !client_name_exists(old(self).clients.deep_view(), c.name@)
                },
            },
    {
        let ghost cs = self.clients.deep_view();
        let mut found: Option<usize> = None;
        let mut k: usize = 0;
        while k < self.clients.len()
            invariant
                0 <= k <= self.clients@.len(),
                cs == self.clients.deep_view(),
                cs.len() == self.clients@.len(),
                match found {
                    None => forall|p: int| 0 <= p < k ==> (#[trigger] cs[p]).name != c.name@,
                    Some(f) => 0 <= f < k && cs[f as int].name == c.name@,
                },
            decreases self.clients@.len() - k,
        {
            proof {
                assert(cs[k as int] == self.clients@[k as int].deep_view());
            }
            if self.clients[k].name == c.name {
                found = Some(k);
            }
            k += 1;
        }
        match found {
            Some(f) => {
                let id = self.clients[f].id;
                let updated = ClientRow {
                    id,
                    config_version: copy_opt_string(&c.config_version),
                    name: c.name.clone(),
                    address: c.address.clone(),
                    port: c.port,
                    server_address: c.server_address.clone(),
                    server_port: c.server_port,
                };
                proof {
                    assert(updated.deep_view() =~= client_row_of(id, c.deep_view()));
                }
                self.clients.set(f, updated);
                proof {
                    assert(self.clients.deep_view() =~= cs.update(
                        f as int,
                        client_row_of(id, c.deep_view()),
                    ));
                    let kk = choose|kk: int| 0 <= kk < cs.len() && (#[trigger] cs[kk]).name == c.name@;
                    assert(cs[kk].name == cs[f as int].name);
                    assert(kk == f as int);
                    let newcs = self.clients.deep_view();
                    assert forall|i: int|
                        0 <= i < cs.len() implies (#[trigger] newcs[i]).id == cs[i].id
                        && newcs[i].name == cs[i].name by {
                        if i == f as int {
                            assert(cs[f as int].name == c.name@);
                        }
                    }
                    assert forall|i: int|
                        0 <= i < self.jobs.deep_view().len() implies has_client_id(
                        newcs,
                        (#[trigger] self.jobs.deep_view()[i]).client_id,
                    ) by {
                        let id2 = self.jobs.deep_view()[i].client_id;
                        assert(has_client_id(cs, id2));
                        let w = choose|w: int| 0 <= w < cs.len() && cs[w].id == id2;
                        assert(newcs[w].id == id2);
                    }
                }
                Ok(id)
            },
            None => {
                if self.next_client_id == i64::MAX {
                    return Err(DbError::IdExhausted);
                }
                let id = self.next_client_id;
                let fresh = ClientRow {
                    id,
                    config_version: copy_opt_string(&c.config_version),
                    name: c.name.clone(),
                    address: c.address.clone(),
                    port: c.port,
                    server_address: c.server_address.clone(),
                    server_port: c.server_port,
                };
                proof {
                    assert(fresh.deep_view() =~= client_row_of(id, c.deep_view()));
                }
                self.clients.push(fresh);
                self.next_client_id = id + 1;
                proof {
                    assert(self.clients.deep_view() =~= cs.push(client_row_of(id, c.deep_view())));
                    let newcs = self.clients.deep_view();
                    assert forall|i: int|
                        0 <= i < self.jobs.deep_view().len() implies has_client_id(
                        newcs,
                        (#[trigger] self.jobs.deep_view()[i]).client_id,
                    ) by {
                        let id2 = self.jobs.deep_view()[i].client_id;
                        assert(has_client_id(cs, id2));
                        let w = choose|w: int| 0 <= w < cs.len() && cs[w].id == id2;
                        assert(newcs[w].id == id2);
                    }
                }
                Ok(id)
            },
        }
    }
}

impl Db {
    /// Upserts a module record, keyed on its name, exactly as
    /// [`upsert_module_spec`] describes; the schedule and path lists do not
    /// persist. Fails only when the identifier space is spent.
    pub fn save_module(&mut self, m: &crate::config::BackupModule) -> (r: Result<i64, DbError>)
        requires
            old(self).wf(),
        ensures
            final(self).wf(),
            final(self).clients == old(self).clients,
            final(self).jobs == old(self).jobs,
            final(self).next_client_id == old(self).next_client_id,
            final(self).next_job_id == old(self).next_job_id,
            match r {
                Ok(id) => {
                    let up = upsert_module_spec(
                        old(self).modules.deep_view(),
                        old(self).next_module_id,
                        m.deep_view(),
                    );
                    &&& final(self).modules.deep_view() == up.0
                    &&& final(self).next_module_id == up.1
                    &&& id == up.2
                },
                Err(e) => {
                    &&& e == DbError::IdExhausted
                    &&& old(self).next_module_id == i64::MAX
                    &&& *final(self) == *old(self)
                    &&& !module_name_exists(old(self).modules.deep_view(), m.name@)
                },
            },
    {
        let ghost ms = self.modules.deep_view();
        let mut found: Option<usize> = None;
        let mut k: usize = 0;
        while k < self.modules.len()
            invariant
                0 <= k <= self.modules@.len(),
                ms == self.modules.deep_view(),
                ms.len() == self.modules@.len(),
                match found {
                    None => forall|p: int| 0 <= p < k ==> (#[trigger] ms[p]).name != m.name@,
                    Some(f) => 0 <= f < k && ms[f as int].name == m.name@,
                },
            decreases self.modules@.len() - k,
        {
            proof {
                assert(ms[k as int] == self.modules@[k as int].deep_view());
            }
            if self.modules[k].name == m.name {
                found = Some(k);
            }
            k += 1;
        }
        match found {
            Some(f) => {
                let id = self.modules[f].id;
                let updated = ModuleRow {
                    id,
                    module_type: m.module_type.clone(),
                    name: m.name.clone(),
                    backup_type: m.backup_type,
                    pre_backup_script: copy_opt_string(&m.pre_backup_script),
                    post_backup_script: copy_opt_string(&m.post_backup_script),
                    pre_restore_script: copy_opt_string(&m.pre_restore_script),
                    post_restore_script: copy_opt_string(&m.post_restore_script),
                };
                proof {
                    assert(updated.deep_view() =~= module_row_of(id, m.deep_view()));
                }
                self.modules.set(f, updated);
                proof {
                    assert(self.modules.deep_view() =~= ms.update(
                        f as int,
                        module_row_of(id, m.deep_view()),
                    ));
                    let kk = choose|kk: int| 0 <= kk < ms.len() && (#[trigger] ms[kk]).name == m.name@;
                    assert(ms[kk].name == ms[f as int].name);
                    assert(kk == f as int);
                    let newms = self.modules.deep_view();
                    assert forall|i: int|
                        0 <= i < ms.len() implies (#[trigger] newms[i]).id == ms[i].id
                        && newms[i].name == ms[i].name by {
                        if i == f as int {
                            assert(ms[f as int].name == m.name@);
                        }
                    }
                    assert forall|i: int|
                        0 <= i < self.jobs.deep_view().len() implies has_module_id(
                        newms,
                        (#[trigger] self.jobs.deep_view()[i]).module_id,
                    ) by {
                        let id2 = self.jobs.deep_view()[i].module_id;
                        assert(has_module_id(ms, id2));
                        let w = choose|w: int| 0 <= w < ms.len() && ms[w].id == id2;
                        assert(newms[w].id == id2);
                    }
                }
                Ok(id)
            },
            None => {
                if self.next_module_id == i64::MAX {
                    return Err(DbError::IdExhausted);
                }
                let id = self.next_module_id;
                let fresh = ModuleRow {
                    id,
                    module_type: m.module_type.clone(),
                    name: m.name.clone(),
                    backup_type: m.backup_type,
                    pre_backup_script: copy_opt_string(&m.pre_backup_script),
                    post_backup_script: copy_opt_string(&m.post_backup_script),
                    pre_restore_script: copy_opt_string(&m.pre_restore_script),
                    post_restore_script: copy_opt_string(&m.post_restore_script),
                };
                proof {
                    assert(fresh.deep_view() =~= module_row_of(id, m.deep_view()));
                }
                self.modules.push(fresh);
                self.next_module_id = id + 1;
                proof {
                    assert(self.modules.deep_view() =~= ms.push(module_row_of(id, m.deep_view())));
                    let newms = self.modules.deep_view();
                    assert forall|i: int|
                        0 <= i < self.jobs.deep_view().len() implies has_module_id(
                        newms,
                        (#[trigger] self.jobs.deep_view()[i]).module_id,
                    ) by {
                        let id2 = self.jobs.deep_view()[i].module_id;
                        assert(has_module_id(ms, id2));
                        let w = choose|w: int| 0 <= w < ms.len() && ms[w].id == id2;
                        assert(newms[w].id == id2);
                    }
                }
                Ok(id)
            },
        }
    }

    /// Persists a job, first upserting its module and client snapshots to
    /// obtain their row identifiers, then upserting the job row keyed on its
    /// identifier, exactly as the three upsert descriptions compose. Fails
    /// only when one of the identifier spaces is spent; the job table is then
    /// untouched.
    pub fn save_job(&mut self, job: &BackupJob) -> (r: Result<i64, DbError>)
        requires
            old(self).wf(),
        ensures
            final(self).wf(),
            match r {
                Ok(id) => {
                    let mu = upsert_module_spec(
                        old(self).modules.deep_view(),
                        old(self).next_module_id,
                        job.module.deep_view(),
                    );
                    let cu = upsert_client_spec(
                        old(self).clients.deep_view(),
                        old(self).next_client_id,
                        job.client.deep_view(),
                    );
                    let ju = upsert_job_spec(
                        old(self).jobs.deep_view(),
                        old(self).next_job_id,
                        job.deep_view(),
                        mu.2,
                        cu.2,
                    );
                    &&& final(self).modules.deep_view() == mu.0
                    &&& final(self).next_module_id == mu.1
                    &&& final(self).clients.deep_view() == cu.0
                    &&& final(self).next_client_id == cu.1
                    &&& final(self).jobs.deep_view() == ju.0
                    &&& final(self).next_job_id == ju.1
                    &&& id == ju.2
                },
                Err(e) => {
                    &&& e == DbError::IdExhausted
                    &&& final(self).jobs == old(self).jobs
                    &&& final(self).next_job_id == old(self).next_job_id
                    &&& {
                        ||| (old(self).next_module_id == i64::MAX && !module_name_exists(
                            old(self).modules.deep_view(),
                            job.module.name@,
                        ))
                        ||| (old(self).next_client_id == i64::MAX && !client_name_exists(
                            old(self).clients.deep_view(),
                            job.client.name@,
                        ))
                        ||| (old(self).next_job_id == i64::MAX && !job_uuid_exists(
                            old(self).jobs.deep_view(),
                            job.uuid@,
                        ))
                    }
                },
            },
    {
        let module_id = match self.save_module(&job.module) {
            Ok(id) => id,
            Err(e) => {
                return Err(e);
            },
        };
        let client_id = match self.save_client(&job.client) {
            Ok(id) => id,
            Err(e) => {
                return Err(e);
            },
        };
        proof {
            let mu = upsert_module_spec(
                old(self).modules.deep_view(),
                old(self).next_module_id,
                job.module.deep_view(),
            );
            assert(has_module_id(mu.0, mu.2)) by {
                if module_name_exists(old(self).modules.deep_view(), job.module.name@) {
                    let k = choose|k: int|
                        0 <= k < old(self).modules.deep_view().len() && (#[trigger] old(
                            self,
                        ).modules.deep_view()[k]).name == job.module.name@;
                    assert(mu.0[k].id == mu.2);
                } else {
                    assert(mu.0[mu.0.len() - 1].id == mu.2);
                }
            }
            let cu = upsert_client_spec(
                old(self).clients.deep_view(),
                old(self).next_client_id,
                job.client.deep_view(),
            );
            assert(has_client_id(cu.0, cu.2)) by {
                if client_name_exists(old(self).clients.deep_view(), job.client.name@) {
                    let k = choose|k: int|
                        0 <= k < old(self).clients.deep_view().len() && (#[trigger] old(
                            self,
                        ).clients.deep_view()[k]).name == job.client.name@;
                    assert(cu.0[k].id == cu.2);
                } else {
                    assert(cu.0[cu.0.len() - 1].id == cu.2);
                }
            }
        }
        let ghost js = self.jobs.deep_view();
        let mut found: Option<usize> = None;
        let mut k: usize = 0;
        while k < self.jobs.len()
            invariant
                0 <= k <= self.jobs@.len(),
                js == self.jobs.deep_view(),
                js.len() == self.jobs@.len(),
                match found {
                    None => forall|p: int| 0 <= p < k ==> (#[trigger] js[p]).uuid != job.uuid@,
                    Some(f) => 0 <= f < k && js[f as int].uuid == job.uuid@,
                },
            decreases self.jobs@.len() - k,
        {
            proof {
                assert(js[k as int] == self.jobs@[k as int].deep_view());
            }
            if self.jobs[k].uuid == job.uuid {
                found = Some(k);
            }
            k += 1;
        }
        match found {
            Some(f) => {
                let id = self.jobs[f].id;
                let updated = JobRow {
                    id,
                    uuid: job.uuid.clone(),
                    status: job.status,
                    backup_type: job.backup_type,
                    module_id,
                    client_id,
                };
                proof {
                    assert(updated.deep_view() =~= job_row_of(
                        id,
                        job.deep_view(),
                        module_id,
                        client_id,
                    ));
                }
                self.jobs.set(f, updated);
                proof {
                    assert(self.jobs.deep_view() =~= js.update(
                        f as int,
                        job_row_of(id, job.deep_view(), module_id, client_id),
                    ));
                    let kk = choose|kk: int| 0 <= kk < js.len() && (#[trigger] js[kk]).uuid == job.uuid@;
                    assert(js[kk].uuid == js[f as int].uuid);
                    assert(kk == f as int);
                    let newjs = self.jobs.deep_view();
                    assert forall|i: int|
                        0 <= i < js.len() implies (#[trigger] newjs[i]).id == js[i].id
                        && newjs[i].uuid == js[i].uuid by {
                        if i == f as int {
                            assert(js[f as int].uuid == job.uuid@);
                        }
                    }
                    assert forall|i: int|
                        0 <= i < newjs.len() implies has_module_id(
                        self.modules.deep_view(),
                        (#[trigger] newjs[i]).module_id,
                    ) && has_client_id(self.clients.deep_view(), newjs[i].client_id) by {
                        if i != f as int {
                            assert(newjs[i] == js[i]);
                        }
                    }
                }
                Ok(id)
            },
            None => {
                if self.next_job_id == i64::MAX {
                    return Err(DbError::IdExhausted);
                }
                let id = self.next_job_id;
                let fresh = JobRow {
                    id,
                    uuid: job.uuid.clone(),
                    status: job.status,
                    backup_type: job.backup_type,
                    module_id,
                    client_id,
                };
                proof {
                    assert(fresh.deep_view() =~= job_row_of(
                        id,
                        job.deep_view(),
                        module_id,
                        client_id,
                    ));
                }
                self.jobs.push(fresh);
                self.next_job_id = id + 1;
                proof {
                    assert(self.jobs.deep_view() =~= js.push(
                        job_row_of(id, job.deep_view(), module_id, client_id),
                    ));
                    let newjs = self.jobs.deep_view();
                    assert forall|i: int|
                        0 <= i < newjs.len() implies has_module_id(
                        self.modules.deep_view(),
                        (#[trigger] newjs[i]).module_id,
                    ) && has_client_id(self.clients.deep_view(), newjs[i].client_id) by {
                        if i < newjs.len() - 1 {
                            assert(newjs[i] == js[i]);
                        }
                    }
                }
                Ok(id)
            },
        }
    }
}

/// The module row carrying the given identifier (meaningful only when one
/// exists).
pub open spec fn module_row_with_id(ms: Seq<ModuleRowV>, id: i64) -> ModuleRowV {
    ms[choose|k: int| 0 <= k < ms.len() && ms[k].id == id]
}

/// The client row carrying the given identifier (meaningful only when one
/// exists).
pub open spec fn client_row_with_id(cs: Seq<ClientRowV>, id: i64) -> ClientRowV {
    cs[choose|k: int| 0 <= k < cs.len() && cs[k].id == id]
}

/// The module snapshot a persisted row reads back as; the schedule and path
/// lists were not persisted and come back empty.
pub open spec fn module_of_row(m: ModuleRowV) -> crate::config::BackupModuleV {
    crate::config::BackupModuleV {
        module_type: m.module_type,
        name: m.name,
        backup_type: m.backup_type,
        schedules: None,
        backup_paths: None,
        pre_backup_script: m.pre_backup_script,
        post_backup_script: m.post_backup_script,
        pre_restore_script: m.pre_restore_script,
        post_restore_script: m.post_restore_script,
    }
}

/// The client snapshot a persisted row reads back as; modules, schedules and
/// the configuration version were not persisted with it and come back empty.
pub open spec fn client_of_row(c: ClientRowV) -> crate::config::ClientV {
    crate::config::ClientV {
        name: c.name,
        address: c.address,
        port: c.port,
        modules: Seq::empty(),
        schedules: Seq::empty(),
        config_version: None,
        server_address: c.server_address,
        server_port: c.server_port,
    }
}

/// The job a persisted row reads back as, resolving its module and client
/// references in the given tables.
pub open spec fn job_of_row(
    j: JobRowV,
    ms: Seq<ModuleRowV>,
    cs: Seq<ClientRowV>,
) -> crate::job::BackupJobV {
    crate::job::BackupJobV {
        uuid: j.uuid,
        client: client_of_row(client_row_with_id(cs, j.client_id)),
        module: module_of_row(module_row_with_id(ms, j.module_id)),
        status: j.status,
        backup_type: j.backup_type,
    }
}

/// A job row is eligible as the reference backup of `target`: it is a done
/// full backup for the same client name and module type.
pub open spec fn prev_full_match(
    j: JobRowV,
    ms: Seq<ModuleRowV>,
    cs: Seq<ClientRowV>,
    target: crate::job::BackupJobV,
) -> bool {
    &&& j.status == JobStatus::Done
    &&& j.backup_type == BackupType::Full
    &&& module_row_with_id(ms, j.module_id).module_type == target.module.module_type
    &&& client_row_with_id(cs, j.client_id).name == target.client.name
}

impl Db {
    /// The module row carrying the given identifier.
    fn find_module_row(&self, id: i64) -> (r: &ModuleRow)
        requires
            self.wf(),
            has_module_id(self.modules.deep_view(), id),
        ensures
            r.deep_view() == module_row_with_id(self.modules.deep_view(), id),
    {
        let ghost ms = self.modules.deep_view();
        let mut k: usize = 0;
        while k < self.modules.len()
            invariant
                0 <= k <= self.modules@.len(),
                self.wf(),
                ms == self.modules.deep_view(),
                ms.len() == self.modules@.len(),
                has_module_id(ms, id),
                forall|p: int| 0 <= p < k ==> (#[trigger] ms[p]).id != id,
            decreases self.modules@.len() - k,
        {
            proof {
                assert(ms[k as int] == self.modules@[k as int].deep_view());
            }
            if self.modules[k].id == id {
                proof {
                    let kk = choose|kk: int| 0 <= kk < ms.len() && ms[kk].id == id;
                    if kk < k as int {
                        assert(ms[kk].id < ms[k as int].id);
                    }
                    if (k as int) < kk {
                        assert(ms[k as int].id < ms[kk].id);
                    }
                    assert(kk == k as int);
                }
                return &self.modules[k];
            }
            k += 1;
        }
        proof {
            let kk = choose|kk: int| 0 <= kk < ms.len() && ms[kk].id == id;
            assert(false);
        }
        &self.modules[0]
    }

    /// The client row carrying the given identifier.
    fn find_client_row(&self, id: i64) -> (r: &ClientRow)
        requires
            self.wf(),
            has_client_id(self.clients.deep_view(), id),
        ensures
            r.deep_view() == client_row_with_id(self.clients.deep_view(), id),
    {
        let ghost cs = self.clients.deep_view();
        let mut k: usize = 0;
        while k < self.clients.len()
            invariant
                0 <= k <= self.clients@.len(),
                self.wf(),
                cs == self.clients.deep_view(),
                cs.len() == self.clients@.len(),
                has_client_id(cs, id),
                forall|p: int| 0 <= p < k ==> (#[trigger] cs[p]).id != id,
            decreases self.clients@.len() - k,
        {
            proof {
                assert(cs[k as int] == self.clients@[k as int].deep_view());
            }
            if self.clients[k].id == id {
                proof {
                    let kk = choose|kk: int| 0 <= kk < cs.len() && cs[kk].id == id;
                    if kk < k as int {
                        assert(cs[kk].id < cs[k as int].id);
                    }
                    if (k as int) < kk {
                        assert(cs[k as int].id < cs[kk].id);
                    }
                    assert(kk == k as int);
                }
                return &self.clients[k];
            }
            k += 1;
        }
        proof {
            let kk = choose|kk: int| 0 <= kk < cs.len() && cs[kk].id == id;
            assert(false);
        }
        &self.clients[0]
    }

    /// Reads a job row back as a job, resolving its module and client
    /// references.
    fn reconstruct_job(&self, jrow: &JobRow) -> (r: BackupJob)
        requires
            self.wf(),
            has_module_id(self.modules.deep_view(), jrow.module_id),
            has_client_id(self.clients.deep_view(), jrow.client_id),
        ensures
            r.deep_view() == job_of_row(
                jrow.deep_view(),
                self.modules.deep_view(),
                self.clients.deep_view(),
            ),
    {
        let m = self.find_module_row(jrow.module_id);
        let c = self.find_client_row(jrow.client_id);
        let r = BackupJob {
            uuid: jrow.uuid.clone(),
            client: crate::config::Client {
                name: c.name.clone(),
                address: c.address.clone(),
                port: c.port,
                modules: Vec::new(),
                schedules: Vec::new(),
                config_version: None,
                server_address: c.server_address.clone(),
                server_port: c.server_port,
            },
            module: crate::config::BackupModule {
                module_type: m.module_type.clone(),
                name: m.name.clone(),
                backup_type: m.backup_type,
                schedules: None,
                backup_paths: None,
                pre_backup_script: copy_opt_string(&m.pre_backup_script),
                post_backup_script: copy_opt_string(&m.post_backup_script),
                pre_restore_script: copy_opt_string(&m.pre_restore_script),
                post_restore_script: copy_opt_string(&m.post_restore_script),
            },
            status: jrow.status,
            backup_type: jrow.backup_type,
        };
        proof {
            assert(r.deep_view() =~= job_of_row(
                jrow.deep_view(),
                self.modules.deep_view(),
                self.clients.deep_view(),
            ));
        }
        r
    }

    /// The job persisted under the given identifier text, if any, read back
    /// with its module and client snapshots.
    pub fn find_by_uuid(&self, uuid: &str) -> (r: Option<BackupJob>)
        requires
            self.wf(),
        ensures
            match r {
                None => !job_uuid_exists(self.jobs.deep_view(), uuid@),
                Some(job) => exists|k: int|
                    0 <= k < self.jobs.deep_view().len() && (
                    #[trigger] self.jobs.deep_view()[k]).uuid == uuid@ && job.deep_view()
                        == job_of_row(
                        self.jobs.deep_view()[k],
                        self.modules.deep_view(),
                        self.clients.deep_view(),
                    ),
            },
    {
        let ghost js = self.jobs.deep_view();
        let u = String::from_str(uuid);
        let mut k: usize = 0;
        while k < self.jobs.len()
            invariant
                0 <= k <= self.jobs@.len(),
                self.wf(),
                u@ == uuid@,
                js == self.jobs.deep_view(),
                js.len() == self.jobs@.len(),
                forall|p: int| 0 <= p < k ==> (#[trigger] js[p]).uuid != uuid@,
            decreases self.jobs@.len() - k,
        {
            proof {
                assert(js[k as int] == self.jobs@[k as int].deep_view());
            }
            if self.jobs[k].uuid == u {
                return Some(self.reconstruct_job(&self.jobs[k]));
            }
            k += 1;
        }
        None
    }

    /// Whether a job row records an in-flight backup.
    pub open spec fn row_is_active(j: JobRowV) -> bool {
        j.status == JobStatus::Active
    }

    /// The job rows currently marked active, in table order.
    pub open spec fn active_rows(js: Seq<JobRowV>) -> Seq<JobRowV> {
        js.filter(|j: JobRowV| Db::row_is_active(j))
    }

    /// Every job currently marked active, in table order, each read back
    /// with its module and client snapshots: a job appears in the result
    /// exactly when its persisted status is active.
    pub fn get_active_jobs(&self) -> (r: Vec<BackupJob>)
        requires
            self.wf(),
        ensures
            r.deep_view().len() == Db::active_rows(self.jobs.deep_view()).len(),
            forall|q: int|
                0 <= q < r.deep_view().len() ==> #[trigger] r.deep_view()[q] == job_of_row(
                    Db::active_rows(self.jobs.deep_view())[q],
                    self.modules.deep_view(),
                    self.clients.deep_view(),
                ),
            forall|q: int|
                0 <= q < r.deep_view().len() ==> (#[trigger] r.deep_view()[q]).status
                    == JobStatus::Active,
            forall|k: int|
                0 <= k < self.jobs.deep_view().len() && (#[trigger] self.jobs.deep_view()[k]).status
                    == JobStatus::Active ==> exists|q: int|
                    0 <= q < r.deep_view().len() && #[trigger] r.deep_view()[q] == job_of_row(
                        self.jobs.deep_view()[k],
                        self.modules.deep_view(),
                        self.clients.deep_view(),
                    ),
    {
        let ghost js = self.jobs.deep_view();
        let mut out: Vec<BackupJob> = Vec::new();
        let mut i: usize = 0;
        proof {
            reveal(Seq::filter);
            assert(js.subrange(0, 0) =~= Seq::<JobRowV>::empty());
            assert(Db::active_rows(js.subrange(0, 0)).len() == 0);
        }
        while i < self.jobs.len()
            invariant
                0 <= i <= self.jobs@.len(),
                self.wf(),
                js == self.jobs.deep_view(),
                js.len() == self.jobs@.len(),
                out.deep_view().len() == Db::active_rows(js.subrange(0, i as int)).len(),
                forall|q: int|
                    0 <= q < out.deep_view().len() ==> #[trigger] out.deep_view()[q] == job_of_row(
                        Db::active_rows(js.subrange(0, i as int))[q],
                        self.modules.deep_view(),
                        self.clients.deep_view(),
                    ),
            decreases self.jobs@.len() - i,
        {
            let ghost fsub = Db::active_rows(js.subrange(0, i as int));
            proof {
                reveal(Seq::filter);
                assert(js.subrange(0, i as int + 1).drop_last() =~= js.subrange(0, i as int));
                assert(js.subrange(0, i as int + 1).last() == js[i as int]);
                assert(js[i as int] == self.jobs@[i as int].deep_view());
            }
            let is_active = match self.jobs[i].status {
                JobStatus::Active => true,
                _ => false,
            };
            if is_active {
                proof {
                    assert(js[i as int].status == JobStatus::Active);
                }
                let job = self.reconstruct_job(&self.jobs[i]);
                let ghost out_before = out.deep_view();
                let ghost jobv = job.deep_view();
                out.push(job);
                proof {
                    assert(out.deep_view() =~= out_before.push(jobv));
                    assert(Db::active_rows(js.subrange(0, i as int + 1)) =~= fsub.push(
                        js[i as int],
                    ));
                    let fnext = Db::active_rows(js.subrange(0, i as int + 1));
                    assert forall|q: int|
                        0 <= q < out.deep_view().len() implies #[trigger] out.deep_view()[q]
                        == job_of_row(
                        fnext[q],
                        self.modules.deep_view(),
                        self.clients.deep_view(),
                    ) by {
                        if q < out_before.len() {
                            assert(out.deep_view()[q] == out_before[q]);
                            assert(fnext[q] == fsub[q]);
                        } else {
                            assert(out.deep_view()[q] == jobv);
                            assert(fnext[q] == js[i as int]);
                        }
                    }
                }
            } else {
                proof {
                    assert(Db::active_rows(js.subrange(0, i as int + 1)) =~= fsub);
                }
            }
            i += 1;
        }
        proof {
            assert(js.subrange(0, js.len() as int) =~= js);
            let fall = Db::active_rows(js);
            assert forall|q: int|
                0 <= q < out.deep_view().len() implies (#[trigger] out.deep_view()[q]).status
                == JobStatus::Active by {
                js.lemma_filter_pred(|j: JobRowV| Db::row_is_active(j), q);
            }
            assert forall|k: int|
                0 <= k < js.len() && (#[trigger] js[k]).status == JobStatus::Active implies exists|
                q: int,
            |
                0 <= q < out.deep_view().len() && #[trigger] out.deep_view()[q] == job_of_row(
                    js[k],
                    self.modules.deep_view(),
                    self.clients.deep_view(),
                ) by {
                js.lemma_filter_contains(|j: JobRowV| Db::row_is_active(j), k);
                let q = choose|q: int| 0 <= q < fall.len() && fall[q] == js[k];
                assert(out.deep_view()[q] == job_of_row(
                    fall[q],
                    self.modules.deep_view(),
                    self.clients.deep_view(),
                ));
            }
        }
        out
    }
}

/// The most recent done full backup persisted for the same client name and
/// module type as `job`, if any: the highest-identifier matching row, read
/// back with its snapshots.
pub fn get_previous_full_backup_job(job: &BackupJob, db: &Db) -> (r: Option<BackupJob>)
    requires
        db.wf(),
    ensures
        match r {
            None => forall|k: int|
                0 <= k < db.jobs.deep_view().len() ==> !prev_full_match(
                    #[trigger] db.jobs.deep_view()[k],
                    db.modules.deep_view(),
                    db.clients.deep_view(),
                    job.deep_view(),
                ),
            Some(found) => exists|k: int|
                {
                    &&& 0 <= k < db.jobs.deep_view().len()
                    &&& prev_full_match(
                        #[trigger] db.jobs.deep_view()[k],
                        db.modules.deep_view(),
                        db.clients.deep_view(),
                        job.deep_view(),
                    )
                    &&& forall|k2: int|
                        k < k2 < db.jobs.deep_view().len() ==> !prev_full_match(
                            #[trigger] db.jobs.deep_view()[k2],
                            db.modules.deep_view(),
                            db.clients.deep_view(),
                            job.deep_view(),
                        )
                    &&& found.deep_view() == job_of_row(
                        db.jobs.deep_view()[k],
                        db.modules.deep_view(),
                        db.clients.deep_view(),
                    )
                },
        },
{
    let ghost js = db.jobs.deep_view();
    let mut k: usize = db.jobs.len();
    while k > 0
        invariant
            0 <= k <= db.jobs@.len(),
            db.wf(),
            js == db.jobs.deep_view(),
            js.len() == db.jobs@.len(),
            forall|p: int|
                k <= p < js.len() ==> !prev_full_match(
                    #[trigger] js[p],
                    db.modules.deep_view(),
                    db.clients.deep_view(),
                    job.deep_view(),
                ),
        decreases k,
    {
        k -= 1;
        let row = &db.jobs[k];
        proof {
            assert(js[k as int] == db.jobs@[k as int].deep_view());
        }
        let status_done = match row.status {
            JobStatus::Done => true,
            _ => false,
        };
        let type_full = match row.backup_type {
            BackupType::Full => true,
            _ => false,
        };
        if status_done && type_full {
            let m = db.find_module_row(row.module_id);
            let c = db.find_client_row(row.client_id);
            if m.module_type == job.module.module_type && c.name == job.client.name {
                return Some(db.reconstruct_job(row));
            }
        }
    }
    None
}

impl Client {
    /// Upserts this client record, keyed on its name, as
    /// [`Db::save_client`] does.
    pub fn save(&self, db: &mut Db) -> (r: Result<i64, DbError>)
        requires
            old(db).wf(),
        ensures
            final(db).wf(),
            match r {
                Ok(id) => {
                    let up = upsert_client_spec(
                        old(db).clients.deep_view(),
                        old(db).next_client_id,
                        self.deep_view(),
                    );
                    &&& final(db).clients.deep_view() == up.0
                    &&& final(db).next_client_id == up.1
                    &&& id == up.2
                },
                Err(e) => e == DbError::IdExhausted && *final(db) == *old(db),
            },
    {
        db.save_client(self)
    }

    /// The row identifier the named client is persisted under, when one is.
    pub fn get_db_id(name: &String, db: &Db) -> (r: Result<i64, DbError>)
        requires
            db.wf(),
        ensures
            match r {
                Ok(id) => exists|k: int|
                    0 <= k < db.clients.deep_view().len() && (
                    #[trigger] db.clients.deep_view()[k]).name == name@
                        && db.clients.deep_view()[k].id == id,
                Err(e) => e == DbError::NotFound && !client_name_exists(
                    db.clients.deep_view(),
                    name@,
                ),
            },
    {
        let ghost cs = db.clients.deep_view();
        let mut k: usize = 0;
        while k < db.clients.len()
            invariant
                0 <= k <= db.clients@.len(),
                cs == db.clients.deep_view(),
                cs.len() == db.clients@.len(),
                forall|p: int| 0 <= p < k ==> (#[trigger] cs[p]).name != name@,
            decreases db.clients@.len() - k,
        {
            proof {
                assert(cs[k as int] == db.clients@[k as int].deep_view());
            }
            if db.clients[k].name == *name {
                return Ok(db.clients[k].id);
            }
            k += 1;
        }
        Err(DbError::NotFound)
    }

    /// The client snapshot persisted under the given row identifier, when
    /// one is; its modules, schedules and configuration version were not
    /// persisted and come back empty.
    pub fn find_by_id(id: i64, db: &Db) -> (r: Result<Client, DbError>)
        requires
            db.wf(),
        ensures
            match r {
                Ok(c) => has_client_id(db.clients.deep_view(), id) && c.deep_view()
                    == client_of_row(client_row_with_id(db.clients.deep_view(), id)),
                Err(e) => e == DbError::NotFound && !has_client_id(db.clients.deep_view(), id),
            },
    {
        let ghost cs = db.clients.deep_view();
        let mut k: usize = 0;
        while k < db.clients.len()
            invariant
                0 <= k <= db.clients@.len(),
                db.wf(),
                cs == db.clients.deep_view(),
                cs.len() == db.clients@.len(),
                forall|p: int| 0 <= p < k ==> (#[trigger] cs[p]).id != id,
            decreases db.clients@.len() - k,
        {
            proof {
                assert(cs[k as int] == db.clients@[k as int].deep_view());
            }
            if db.clients[k].id == id {
                proof {
                    let kk = choose|kk: int| 0 <= kk < cs.len() && cs[kk].id == id;
                    if kk < k as int {
                        assert(cs[kk].id < cs[k as int].id);
                    }
                    if (k as int) < kk {
                        assert(cs[k as int].id < cs[kk].id);
                    }
                    assert(kk == k as int);
                }
                let row = &db.clients[k];
                let c = Client {
                    name: row.name.clone(),
                    address: row.address.clone(),
                    port: row.port,
                    modules: Vec::new(),
                    schedules: Vec::new(),
                    config_version: None,
                    server_address: row.server_address.clone(),
                    server_port: row.server_port,
                };
                proof {
                    assert(c.deep_view() =~= client_of_row(client_row_with_id(cs, id)));
                }
                return Ok(c);
            }
            k += 1;
        }
        Err(DbError::NotFound)
    }
}

impl crate::config::BackupModule {
    /// Upserts this module record, keyed on its name, as
    /// [`Db::save_module`] does.
    pub fn save(&self, db: &mut Db) -> (r: Result<i64, DbError>)
        requires
            old(db).wf(),
        ensures
            final(db).wf(),
            match r {
                Ok(id) => {
                    let up = upsert_module_spec(
                        old(db).modules.deep_view(),
                        old(db).next_module_id,
                        self.deep_view(),
                    );
                    &&& final(db).modules.deep_view() == up.0
                    &&& final(db).next_module_id == up.1
                    &&& id == up.2
                },
                Err(e) => e == DbError::IdExhausted && *final(db) == *old(db),
            },
    {
        db.save_module(self)
    }

    /// The row identifier the named module is persisted under, when one is.
    pub fn get_db_id(name: &String, db: &Db) -> (r: Result<i64, DbError>)
        requires
            db.wf(),
        ensures
            match r {
                Ok(id) => exists|k: int|
                    0 <= k < db.modules.deep_view().len() && (
                    #[trigger] db.modules.deep_view()[k]).name == name@
                        && db.modules.deep_view()[k].id == id,
                Err(e) => e == DbError::NotFound && !module_name_exists(
                    db.modules.deep_view(),
                    name@,
                ),
            },
    {
        let ghost ms = db.modules.deep_view();
        let mut k: usize = 0;
        while k < db.modules.len()
            invariant
                0 <= k <= db.modules@.len(),
                ms == db.modules.deep_view(),
                ms.len() == db.modules@.len(),
                forall|p: int| 0 <= p < k ==> (#[trigger] ms[p]).name != name@,
            decreases db.modules@.len() - k,
        {
            proof {
                assert(ms[k as int] == db.modules@[k as int].deep_view());
            }
            if db.modules[k].name == *name {
                return Ok(db.modules[k].id);
            }
            k += 1;
        }
        Err(DbError::NotFound)
    }

    /// The module snapshot persisted under the given row identifier, when
    /// one is; its schedule and path lists were not persisted and come back
    /// empty.
    pub fn find_by_id(id: i64, db: &Db) -> (r: Result<crate::config::BackupModule, DbError>)
        requires
            db.wf(),
        ensures
            match r {
                Ok(m) => has_module_id(db.modules.deep_view(), id) && m.deep_view()
                    == module_of_row(module_row_with_id(db.modules.deep_view(), id)),
                Err(e) => e == DbError::NotFound && !has_module_id(db.modules.deep_view(), id),
            },
    {
        let ghost ms = db.modules.deep_view();
        let mut k: usize = 0;
        while k < db.modules.len()
            invariant
                0 <= k <= db.modules@.len(),
                db.wf(),
                ms == db.modules.deep_view(),
                ms.len() == db.modules@.len(),
                forall|p: int| 0 <= p < k ==> (#[trigger] ms[p]).id != id,
            decreases db.modules@.len() - k,
        {
            proof {
                assert(ms[k as int] == db.modules@[k as int].deep_view());
            }
            if db.modules[k].id == id {
                proof {
                    let kk = choose|kk: int| 0 <= kk < ms.len() && ms[kk].id == id;
                    if kk < k as int {
                        assert(ms[kk].id < ms[k as int].id);
                    }
                    if (k as int) < kk {
                        assert(ms[k as int].id < ms[kk].id);
                    }
                    assert(kk == k as int);
                }
                let row = &db.modules[k];
                let m = crate::config::BackupModule {
                    module_type: row.module_type.clone(),
                    name: row.name.clone(),
                    backup_type: row.backup_type,
                    schedules: None,
                    backup_paths: None,
                    pre_backup_script: copy_opt_string(&row.pre_backup_script),
                    post_backup_script: copy_opt_string(&row.post_backup_script),
                    pre_restore_script: copy_opt_string(&row.pre_restore_script),
                    post_restore_script: copy_opt_string(&row.post_restore_script),
                };
                proof {
                    assert(m.deep_view() =~= module_of_row(module_row_with_id(ms, id)));
                }
                return Ok(m);
            }
            k += 1;
        }
        Err(DbError::NotFound)
    }
}

impl BackupJob {
    /// Persists this job, cascading through its module and client snapshots,
    /// as [`Db::save_job`] does.
    pub fn save(&self, db: &mut Db) -> (r: Result<i64, DbError>)
        requires
            old(db).wf(),
        ensures
            final(db).wf(),
            match r {
                Ok(id) => {
                    let mu = upsert_module_spec(
                        old(db).modules.deep_view(),
                        old(db).next_module_id,
                        self.module.deep_view(),
                    );
                    let cu = upsert_client_spec(
                        old(db).clients.deep_view(),
                        old(db).next_client_id,
                        self.client.deep_view(),
                    );
                    let ju = upsert_job_spec(
                        old(db).jobs.deep_view(),
                        old(db).next_job_id,
                        self.deep_view(),
                        mu.2,
                        cu.2,
                    );
                    &&& final(db).modules.deep_view() == mu.0
                    &&& final(db).next_module_id == mu.1
                    &&& final(db).clients.deep_view() == cu.0
                    &&& final(db).next_client_id == cu.1
                    &&& final(db).jobs.deep_view() == ju.0
                    &&& final(db).next_job_id == ju.1
                    &&& id == ju.2
                },
                Err(e) => e == DbError::IdExhausted && final(db).jobs == old(db).jobs,
            },
    {
        db.save_job(self)
    }

    /// The job persisted under the given identifier text, when one is, as
    /// [`Db::find_by_uuid`] reads it back.
    pub fn find_by_uuid(uuid: &str, db: &Db) -> (r: Option<BackupJob>)
        requires
            db.wf(),
        ensures
            match r {
                None => !job_uuid_exists(db.jobs.deep_view(), uuid@),
                Some(job) => exists|k: int|
                    0 <= k < db.jobs.deep_view().len() && (
                    #[trigger] db.jobs.deep_view()[k]).uuid == uuid@ && job.deep_view()
                        == job_of_row(
                        db.jobs.deep_view()[k],
                        db.modules.deep_view(),
                        db.clients.deep_view(),
                    ),
            },
    {
        db.find_by_uuid(uuid)
    }

    /// Every job currently marked active, as [`Db::get_active_jobs`] lists
    /// them: a job is listed exactly when its persisted status is active.
    pub fn get_active_jobs(db: &Db) -> (r: Vec<BackupJob>)
        requires
            db.wf(),
        ensures
            r.deep_view().len() == Db::active_rows(db.jobs.deep_view()).len(),
            forall|q: int|
                0 <= q < r.deep_view().len() ==> #[trigger] r.deep_view()[q] == job_of_row(
                    Db::active_rows(db.jobs.deep_view())[q],
                    db.modules.deep_view(),
                    db.clients.deep_view(),
                ),
            forall|q: int|
                0 <= q < r.deep_view().len() ==> (#[trigger] r.deep_view()[q]).status
                    == JobStatus::Active,
            forall|k: int|
                0 <= k < db.jobs.deep_view().len() && (#[trigger] db.jobs.deep_view()[k]).status
                    == JobStatus::Active ==> exists|q: int|
                    0 <= q < r.deep_view().len() && #[trigger] r.deep_view()[q] == job_of_row(
                        db.jobs.deep_view()[k],
                        db.modules.deep_view(),
                        db.clients.deep_view(),
                    ),
    {
        db.get_active_jobs()
    }

    /// The row identifier the job with the given identifier text is
    /// persisted under, when one is.
    pub fn get_db_id(uuid: &str, db: &Db) -> (r: Result<i64, DbError>)
        requires
            db.wf(),
        ensures
            match r {
                Ok(id) => exists|k: int|
                    0 <= k < db.jobs.deep_view().len() && (
                    #[trigger] db.jobs.deep_view()[k]).uuid == uuid@ && db.jobs.deep_view()[k].id
                        == id,
                Err(e) => e == DbError::NotFound && !job_uuid_exists(db.jobs.deep_view(), uuid@),
            },
    {
        let ghost js = db.jobs.deep_view();
        let u = String::from_str(uuid);
        let mut k: usize = 0;
        while k < db.jobs.len()
            invariant
                0 <= k <= db.jobs@.len(),
                u@ == uuid@,
                js == db.jobs.deep_view(),
                js.len() == db.jobs@.len(),
                forall|p: int| 0 <= p < k ==> (#[trigger] js[p]).uuid != uuid@,
            decreases db.jobs@.len() - k,
        {
            proof {
                assert(js[k as int] == db.jobs@[k as int].deep_view());
            }
            if db.jobs[k].uuid == u {
                return Ok(db.jobs[k].id);
            }
            k += 1;
        }
        Err(DbError::NotFound)
    }
}

} // verus!
